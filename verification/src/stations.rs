//! The stations of the network: their names as typed on the command line,
//! and the codes by which the schedule service knows them.

use vstd::prelude::*;
use crate::errors::SourceError;
use crate::text::{after_last, same_text, station_key, station_key_of, text_after_last};

verus! {

/// The selector of the buttons that stand for stations on a page of stops.
pub const STOP_BUTTON: &'static str = "a[class=\"btn button stop-btn m-detailed-stop\"]";

/// The attribute of a button that holds the name of its station.
pub const NAME_ATTRIBUTE: &'static str = "data-name";

/// The attribute of a button that holds the link to its station.
pub const LINK_ATTRIBUTE: &'static str = "href";

/// What stands in a link before the code of the station.
pub const STOP_MARKER: &'static str = "stop/";

/// A button as read from a page: its name and its link, each if present.
pub type Button = (Option<String>, Option<String>);

/// A button with its texts as sequences of characters.
pub type ButtonText = (Option<Seq<char>>, Option<Seq<char>>);

/// What `scraper` finds in the document `html` for the CSS selector
/// `selector`: of each element that matches, in the order in which its
/// parser made the elements, the values of the attributes `first` and
/// `second`, as far as the element has them. None where `selector` is no CSS
/// selector.
pub uninterp spec fn selected_attributes(
    html: Seq<char>,
    selector: Seq<char>,
    first: Seq<char>,
    second: Seq<char>,
) -> Option<Seq<(Option<Seq<char>>, Option<Seq<char>>)>>;

/// `scraper::Selector::parse`, `scraper::Html::parse_document` and
/// `scraper::Html::select`, then `scraper::node::Element::attr` on each
/// element found: the result is the one named `selected_attributes`, and
/// nothing more is claimed of it.
#[verifier::external_body]
fn select_attributes(html: &str, selector: &str, first: &str, second: &str) -> (found: Option<
    Vec<Button>,
>)
    ensures
        found.deep_view() == selected_attributes(html@, selector@, first@, second@),
{
    let chosen = scraper::Selector::parse(selector).ok()?;
    let document = scraper::Html::parse_document(html);
    let attributes = |element: scraper::ElementRef| {
        let node = element.value();
        (node.attr(first).map(String::from), node.attr(second).map(String::from))
    };
    Some(document.select(&chosen).map(attributes).collect())
}

/// Whether a button has both its name and its link.
pub open spec fn complete(button: ButtonText) -> bool {
    button.0.is_some() && button.1.is_some()
}

/// The station of a button: the key made of its name, and what follows the
/// last `stop/` in its link.
pub open spec fn station_of(button: ButtonText) -> (Seq<char>, Seq<char>) {
    (station_key(button.0.unwrap()), after_last(button.1.unwrap(), STOP_MARKER@))
}

/// The stations of a run of buttons, in their order; none at all where a
/// button lacks its name or its link.
pub open spec fn station_list(buttons: Seq<ButtonText>) -> Option<Seq<(Seq<char>, Seq<char>)>> {
    if forall|i: int| 0 <= i < buttons.len() ==> complete(#[trigger] buttons[i]) {
        Some(buttons.map_values(|button: ButtonText| station_of(button)))
    } else {
        None
    }
}

/// The stations of a page of stops.
pub open spec fn page_stations(html: Seq<char>) -> Option<Seq<(Seq<char>, Seq<char>)>> {
    match selected_attributes(html, STOP_BUTTON@, NAME_ATTRIBUTE@, LINK_ATTRIBUTE@) {
        Some(buttons) => station_list(buttons),
        None => None,
    }
}

/// A table filled from a list of stations, a later entry replacing an
/// earlier one of the same name.
pub open spec fn extended(
    table: Map<Seq<char>, Seq<char>>,
    stations: Seq<(Seq<char>, Seq<char>)>,
) -> Map<Seq<char>, Seq<char>>
    decreases stations.len(),
{
    if stations.len() == 0 {
        table
    } else {
        extended(table, stations.drop_last()).insert(stations.last().0, stations.last().1)
    }
}

/// The stations of a run of buttons read from a page.
pub fn stations_of_buttons(buttons: &Vec<Button>) -> (stations: Result<
    Vec<(String, String)>,
    SourceError,
>)
    ensures
        stations matches Ok(list) ==> station_list(buttons.deep_view()) == Some(list.deep_view()),
        stations matches Err(error) ==> error == SourceError::Station && station_list(
            buttons.deep_view(),
        ).is_none(),
{
    let mut list: Vec<(String, String)> = Vec::new();
    let mut i: usize = 0;
    let ghost texts = buttons.deep_view();
    while i < buttons.len()
        invariant
            i <= buttons.len(),
            texts == buttons.deep_view(),
            forall|k: int| 0 <= k < i ==> complete(#[trigger] texts[k]),
            list.deep_view() == texts.take(i as int).map_values(
                |button: ButtonText| station_of(button),
            ),
        decreases buttons.len() - i,
    {
        let button: &Button = &buttons[i];
        assert(texts[i as int] == button.deep_view());
        match (&button.0, &button.1) {
            (Some(name), Some(link)) => {
                let ghost before = list.deep_view();
                let key: String = station_key_of(name.as_str());
                let code: String = text_after_last(link.as_str(), STOP_MARKER);
                list.push((key, code));
                assert(list.deep_view() =~= before.push(station_of(texts[i as int])));
                assert(list.deep_view() =~= texts.take(i as int + 1).map_values(
                    |button: ButtonText| station_of(button),
                ));
            },
            _ => {
                assert(!complete(texts[i as int]));
                return Err(SourceError::Station);
            },
        }
        i += 1;
    }
    assert(texts.take(i as int) =~= texts);
    Ok(list)
}

/// The stations on a page of stops: of each station button its name as a
/// key and the code at the end of its link.
pub fn get_stations(html: &str) -> (stations: Result<Vec<(String, String)>, SourceError>)
    ensures
        stations matches Ok(list) ==> page_stations(html@) == Some(list.deep_view()),
        stations matches Err(error) ==> error == SourceError::Station && page_stations(
            html@,
        ).is_none(),
{
    match select_attributes(html, STOP_BUTTON, NAME_ATTRIBUTE, LINK_ATTRIBUTE) {
        Some(buttons) => stations_of_buttons(&buttons),
        None => Err(SourceError::Station),
    }
}

/// The table of stations: from the name of a station to its code.
pub struct StationTable {
    entries: Vec<(String, String)>,
}

impl View for StationTable {
    type V = Map<Seq<char>, Seq<char>>;

    closed spec fn view(&self) -> Map<Seq<char>, Seq<char>> {
        extended(Map::empty(), self.entries.deep_view())
    }
}

/// Filling a table from one list and then another is filling it from both.
pub proof fn lemma_extended_twice(
    table: Map<Seq<char>, Seq<char>>,
    first: Seq<(Seq<char>, Seq<char>)>,
    second: Seq<(Seq<char>, Seq<char>)>,
)
    ensures
        extended(table, first + second) == extended(extended(table, first), second),
    decreases second.len(),
{
    if second.len() == 0 {
        assert(first + second =~= first);
    } else {
        assert((first + second).drop_last() =~= first + second.drop_last());
        lemma_extended_twice(table, first, second.drop_last());
    }
}

/// A name is in the table when it is in the list or was in the table
/// before; its code is that of its last entry in the list, if it has one.
pub proof fn lemma_extended_lookup(
    table: Map<Seq<char>, Seq<char>>,
    stations: Seq<(Seq<char>, Seq<char>)>,
    name: Seq<char>,
    from: int,
)
    requires
        0 <= from <= stations.len(),
        forall|k: int| from <= k < stations.len() ==> (#[trigger] stations[k]).0 != name,
    ensures
        from > 0 && stations[from - 1].0 == name ==> extended(table, stations).contains_key(name)
            && extended(table, stations)[name] == stations[from - 1].1,
        from == 0 ==> extended(table, stations).contains_key(name) == table.contains_key(name),
        from == 0 && table.contains_key(name) ==> extended(table, stations)[name] == table[name],
    decreases stations.len(),
{
    if stations.len() > from {
        lemma_extended_lookup(table, stations.drop_last(), name, from);
    } else if from > 0 {
    }
}

impl StationTable {
    /// A table without stations: it has no entry, and so no name has a
    /// code in it.
    pub fn new() -> (table: StationTable)
        ensures
            table@ == Map::<Seq<char>, Seq<char>>::empty(),
            table.entry_names() == Seq::<Seq<char>>::empty(),
    {
        let table = StationTable { entries: Vec::new() };
        assert(table.entries.deep_view() =~= Seq::empty());
        assert(table.entry_names() =~= Seq::<Seq<char>>::empty());
        table
    }

    /// Takes in a list of stations, a later entry replacing an earlier one
    /// of the same name.
    pub fn extend(&mut self, stations: Vec<(String, String)>)
        ensures
            final(self)@ == extended(old(self)@, stations.deep_view()),
    {
        let mut stations = stations;
        let ghost added = stations.deep_view();
        let ghost before = self.entries.deep_view();
        self.entries.append(&mut stations);
        proof {
            assert(self.entries.deep_view() =~= before + added);
            lemma_extended_twice(Map::empty(), before, added);
        }
    }

    /// The code of the station called `name`, if the table has it.
    pub fn get(&self, name: &str) -> (code: Option<String>)
        ensures
            code.is_some() == self@.contains_key(name@),
            code matches Some(found) ==> found@ == self@[name@],
    {
        let mut i: usize = self.entries.len();
        let ghost texts = self.entries.deep_view();
        while i > 0
            invariant
                i <= self.entries.len(),
                texts == self.entries.deep_view(),
                forall|k: int| i <= k < texts.len() ==> (#[trigger] texts[k]).0 != name@,
            decreases i,
        {
            let entry: &(String, String) = &self.entries[i - 1];
            assert(texts[i - 1] == entry.deep_view());
            if same_text(entry.0.as_str(), name) {
                proof {
                    lemma_extended_lookup(Map::empty(), texts, name@, i as int);
                }
                return Some(entry.1.clone());
            }
            i -= 1;
        }
        proof {
            lemma_extended_lookup(Map::empty(), texts, name@, 0);
        }
        None
    }

    /// The names of the entries, in the order in which they were taken in.
    /// A name taken in twice stands twice.
    pub fn names(&self) -> (names: Vec<String>)
        ensures
            names@.len() == self.entry_names().len(),
            forall|k: int| 0 <= k < names@.len() ==> (#[trigger] names@[k])@ == self.entry_names()[k],
            forall|name: Seq<char>| self@.contains_key(name) <==> self.entry_names().contains(name),
    {
        let mut names: Vec<String> = Vec::new();
        let mut i: usize = 0;
        let ghost texts = self.entries.deep_view();
        while i < self.entries.len()
            invariant
                i <= self.entries.len(),
                texts == self.entries.deep_view(),
                names@.len() == i,
                forall|k: int| 0 <= k < i ==> (#[trigger] names@[k])@ == texts[k].0,
            decreases self.entries.len() - i,
        {
            let entry: &(String, String) = &self.entries[i];
            assert(texts[i as int] == entry.deep_view());
            names.push(entry.0.clone());
            i += 1;
        }
        proof {
            assert forall|name: Seq<char>| self@.contains_key(name) <==> self.entry_names().contains(
                name,
            ) by {
                lemma_extended_domain(Map::empty(), texts, name);
                if self.entry_names().contains(name) {
                    let k = choose|k: int|
                        0 <= k < self.entry_names().len() && self.entry_names()[k] == name;
                    assert(texts[k].0 == name);
                }
                if exists|k: int| 0 <= k < texts.len() && (#[trigger] texts[k]).0 == name {
                    let k = choose|k: int| 0 <= k < texts.len() && (#[trigger] texts[k]).0 == name;
                    assert(self.entry_names()[k] == name);
                }
            }
        }
        names
    }

    /// The names of the entries, in the order in which they were taken in.
    pub closed spec fn entry_names(&self) -> Seq<Seq<char>> {
        self.entries.deep_view().map_values(|entry: (Seq<char>, Seq<char>)| entry.0)
    }
}

/// The names in a filled table are those of the list and those from before.
pub proof fn lemma_extended_domain(
    table: Map<Seq<char>, Seq<char>>,
    stations: Seq<(Seq<char>, Seq<char>)>,
    name: Seq<char>,
)
    ensures
        extended(table, stations).contains_key(name) <==> (table.contains_key(name) || exists|
            k: int,
        |
            0 <= k < stations.len() && (#[trigger] stations[k]).0 == name),
    decreases stations.len(),
{
    if stations.len() > 0 {
        let before = stations.drop_last();
        lemma_extended_domain(table, before, name);
        if exists|k: int| 0 <= k < before.len() && (#[trigger] before[k]).0 == name {
            let k = choose|k: int| 0 <= k < before.len() && (#[trigger] before[k]).0 == name;
            assert(stations[k].0 == name);
        }
        if exists|k: int| 0 <= k < stations.len() && (#[trigger] stations[k]).0 == name {
            let k = choose|k: int| 0 <= k < stations.len() && (#[trigger] stations[k]).0 == name;
            if k < before.len() {
                assert(before[k].0 == name);
            }
        }
    }
}

/// The table of all stations, from the pages of the subway, of the commuter
/// rail and of the ferries, in this order: a station of a later page
/// replaces one of the same name from an earlier page.
pub fn station_hasmap(subway_html: &str, commuter_html: &str, ferry_html: &str) -> (table: Result<
    StationTable,
    SourceError,
>)
    ensures
        table.is_ok() == (page_stations(subway_html@).is_some() && page_stations(
            commuter_html@,
        ).is_some() && page_stations(ferry_html@).is_some()),
        table matches Ok(stations) ==> stations@ == extended(
            extended(
                extended(Map::empty(), page_stations(subway_html@).unwrap()),
                page_stations(commuter_html@).unwrap(),
            ),
            page_stations(ferry_html@).unwrap(),
        ),
        table matches Err(error) ==> error == SourceError::Station,
{
    let mut station_conversion = StationTable::new();
    match get_stations(subway_html) {
        Ok(stations) => station_conversion.extend(stations),
        Err(error) => {
            return Err(error);
        },
    }
    match get_stations(commuter_html) {
        Ok(stations) => station_conversion.extend(stations),
        Err(error) => {
            return Err(error);
        },
    }
    match get_stations(ferry_html) {
        Ok(stations) => station_conversion.extend(stations),
        Err(error) => {
            return Err(error);
        },
    }
    Ok(station_conversion)
}

} // verus!
