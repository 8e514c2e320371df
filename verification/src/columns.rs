//! Column names and duplicate-free lists of them.

use vstd::prelude::*;

verus! {

/// Whether `name` is one of `names`.
pub fn contains_name(names: &Vec<String>, name: &String) -> (found: bool)
    ensures
        found == names.deep_view().contains(name@),
{
    let mut i: usize = 0;
    while i < names.len()
        invariant
            i <= names.len(),
            forall|j: int| 0 <= j < i ==> names[j]@ != name@,
        decreases names.len() - i,
    {
        if names[i] == *name {
            assert(names.deep_view()[i as int] == name@);
            return true;
        }
        i += 1;
    }
    false
}

/// Whether no name occurs twice in `names`.
pub fn all_distinct(names: &Vec<String>) -> (distinct: bool)
    ensures
        distinct == names.deep_view().no_duplicates(),
{
    let mut i: usize = 0;
    while i < names.len()
        invariant
            i <= names.len(),
            forall|a: int, b: int| 0 <= a < b < i ==> names[a]@ != names[b]@,
        decreases names.len() - i,
    {
        let mut j: usize = 0;
        while j < i
            invariant
                j <= i < names.len(),
                forall|a: int| 0 <= a < j ==> names[a]@ != names[i as int]@,
            decreases i - j,
        {
            if names[j] == names[i] {
                assert(names.deep_view()[j as int] == names.deep_view()[i as int]);
                return false;
            }
            j += 1;
        }
        i += 1;
    }
    assert forall|a: int, b: int|
        0 <= a < names.deep_view().len() && 0 <= b < names.deep_view().len() && a != b
        implies names.deep_view()[a] != names.deep_view()[b] by {
        if a < b {
            assert(names[a]@ != names[b]@);
        } else {
            assert(names[b]@ != names[a]@);
        }
    }
    true
}

/// The columns that a delivered table is expected to have, in their order.
pub open spec fn expected_names() -> Seq<Seq<char>> {
    seq![
        "Date"@,
        "NO2"@,
        "O3"@,
        "PM10"@,
        "PM2.5"@,
        "Latitude"@,
        "Longitude"@,
        "station_name"@,
        "Wind-Speed (U)"@,
        "Wind-Speed (V)"@,
        "Dewpoint Temp"@,
        "Soil Temp"@,
        "Total Percipitation"@,
        "Vegitation (High)"@,
        "Vegitation (Low)"@,
        "Temp"@,
        "Relative Humidity"@,
        "code"@,
        "id"@,
    ]
}

/// The columns that are kept, in the order in which they are written out.
pub open spec fn desired_names() -> Seq<Seq<char>> {
    seq![
        "Date"@,
        "NO2"@,
        "O3"@,
        "PM10"@,
        "PM2.5"@,
        "Latitude"@,
        "Longitude"@,
        "station_name"@,
    ]
}

proof fn reveal_column_names()
    ensures
        "Date"@ == seq!['D', 'a', 't', 'e'],
        "NO2"@ == seq!['N', 'O', '2'],
        "O3"@ == seq!['O', '3'],
        "PM10"@ == seq!['P', 'M', '1', '0'],
        "PM2.5"@ == seq!['P', 'M', '2', '.', '5'],
        "Latitude"@.len() == 8,
        "Latitude"@[0] == 'L',
        "Longitude"@.len() == 9,
        "station_name"@.len() == 12,
        "station_name"@[0] == 's',
        "Wind-Speed (U)"@.len() == 14,
        "Wind-Speed (U)"@[12] == 'U',
        "Wind-Speed (V)"@.len() == 14,
        "Wind-Speed (V)"@[12] == 'V',
        "Dewpoint Temp"@.len() == 13,
        "Soil Temp"@.len() == 9,
        "Soil Temp"@[0] == 'S',
        "Longitude"@[0] == 'L',
        "Total Percipitation"@.len() == 19,
        "Vegitation (High)"@.len() == 17,
        "Vegitation (Low)"@.len() == 16,
        "Temp"@.len() == 4,
        "Temp"@[0] == 'T',
        "Relative Humidity"@.len() == 17,
        "Relative Humidity"@[0] == 'R',
        "Vegitation (High)"@[0] == 'V',
        "code"@.len() == 4,
        "code"@[0] == 'c',
        "id"@.len() == 2,
        "id"@[0] == 'i',
{
    reveal_strlit("Date");
    reveal_strlit("NO2");
    reveal_strlit("O3");
    reveal_strlit("PM10");
    reveal_strlit("PM2.5");
    reveal_strlit("Latitude");
    reveal_strlit("Longitude");
    reveal_strlit("station_name");
    reveal_strlit("Wind-Speed (U)");
    reveal_strlit("Wind-Speed (V)");
    reveal_strlit("Dewpoint Temp");
    reveal_strlit("Soil Temp");
    reveal_strlit("Total Percipitation");
    reveal_strlit("Vegitation (High)");
    reveal_strlit("Vegitation (Low)");
    reveal_strlit("Temp");
    reveal_strlit("Relative Humidity");
    reveal_strlit("code");
    reveal_strlit("id");
}

/// No expected column is named twice.
pub proof fn lemma_expected_names_distinct()
    ensures
        expected_names().no_duplicates(),
        expected_names().len() == 19,
{
    reveal_column_names();
}

/// The columns that are kept are the first eight of the expected ones, so
/// each of them is expected and none is named twice.
pub proof fn lemma_desired_names_lead_expected()
    ensures
        desired_names() == expected_names().take(8),
        desired_names().no_duplicates(),
        forall|i: int|
            0 <= i < desired_names().len() ==> expected_names().contains(
                #[trigger] desired_names()[i],
            ),
{
    lemma_expected_names_distinct();
    assert(desired_names() =~= expected_names().take(8));
    assert forall|i: int| 0 <= i < desired_names().len() implies expected_names().contains(
        #[trigger] desired_names()[i],
    ) by {
        assert(expected_names()[i] == desired_names()[i]);
    }
}

/// An ordered list of column names in which no name occurs twice.
#[derive(Debug)]
pub struct ColumnSet {
    names: Vec<String>,
}

impl View for ColumnSet {
    type V = Seq<Seq<char>>;

    closed spec fn view(&self) -> Seq<Seq<char>> {
        self.names.deep_view()
    }
}

impl ColumnSet {
    #[verifier::type_invariant]
    spec fn distinct(&self) -> bool {
        self.names.deep_view().no_duplicates()
    }

    /// The list of `names`, unless one of them occurs twice.
    pub fn new(names: Vec<String>) -> (set: Option<ColumnSet>)
        ensures
            set is Some <==> names.deep_view().no_duplicates(),
            set matches Some(s) ==> s@ == names.deep_view(),
    {
        if all_distinct(&names) {
            Some(ColumnSet { names })
        } else {
            None
        }
    }

    /// The names, in their order.
    pub fn names(&self) -> (names: &Vec<String>)
        ensures
            names.deep_view() == self@,
            self@.no_duplicates(),
    {
        proof {
            use_type_invariant(self);
        }
        &self.names
    }

    /// How many names the list holds.
    pub fn len(&self) -> (n: usize)
        ensures
            n == self@.len(),
    {
        self.names.len()
    }

    /// Whether `name` is in the list.
    pub fn contains(&self, name: &String) -> (found: bool)
        ensures
            found == self@.contains(name@),
    {
        contains_name(&self.names, name)
    }
}

/// The expected schema of a delivered table.
pub fn expected_schema() -> (set: ColumnSet)
    ensures
        set@ == expected_names(),
{
    let mut names: Vec<String> = Vec::new();
    names.push("Date".to_owned());
    names.push("NO2".to_owned());
    names.push("O3".to_owned());
    names.push("PM10".to_owned());
    names.push("PM2.5".to_owned());
    names.push("Latitude".to_owned());
    names.push("Longitude".to_owned());
    names.push("station_name".to_owned());
    names.push("Wind-Speed (U)".to_owned());
    names.push("Wind-Speed (V)".to_owned());
    names.push("Dewpoint Temp".to_owned());
    names.push("Soil Temp".to_owned());
    names.push("Total Percipitation".to_owned());
    names.push("Vegitation (High)".to_owned());
    names.push("Vegitation (Low)".to_owned());
    names.push("Temp".to_owned());
    names.push("Relative Humidity".to_owned());
    names.push("code".to_owned());
    names.push("id".to_owned());
    proof {
        assert(names.deep_view() =~= expected_names());
        lemma_expected_names_distinct();
    }
    ColumnSet { names }
}

/// The columns that the projection keeps.
pub fn desired_columns() -> (set: ColumnSet)
    ensures
        set@ == desired_names(),
{
    let mut names: Vec<String> = Vec::new();
    names.push("Date".to_owned());
    names.push("NO2".to_owned());
    names.push("O3".to_owned());
    names.push("PM10".to_owned());
    names.push("PM2.5".to_owned());
    names.push("Latitude".to_owned());
    names.push("Longitude".to_owned());
    names.push("station_name".to_owned());
    proof {
        assert(names.deep_view() =~= desired_names());
        lemma_desired_names_lead_expected();
    }
    ColumnSet { names }
}

} // verus!
