//! JSON values: what the server's texts hold, and the texts that the client sends.

use vstd::prelude::*;
use vstd::string::*;

use crate::names::NameMap;
use crate::text::{same_text, texts};

verus! {

/// A number of `serde_json`.
#[verifier::external_type_specification]
#[verifier::external_body]
pub struct ExNumber(serde_json::Number);

/// A JSON value.
pub enum Json {
    Null,
    Bool(bool),
    Number(serde_json::Number),
    Text(String),
    List(Vec<Json>),
    /// The members of an object. Of two members with one name the later one counts.
    Dict(Vec<(String, Json)>),
}

/// What a number says.
pub enum NumberView {
    /// An integer of at least zero.
    PosInt(u64),
    /// An integer below zero.
    NegInt(i64),
    /// Any other number, by its text.
    Other(Seq<char>),
}

/// What a JSON value says.
pub enum JsonView {
    Null,
    Bool(bool),
    Number(NumberView),
    Text(Seq<char>),
    List(Seq<JsonView>),
    Dict(Map<Seq<char>, JsonView>),
}

/// A value of `serde_json`.
#[verifier::external_type_specification]
#[verifier::external_body]
pub struct ExValue(serde_json::Value);

/// An error of `serde_json`.
#[verifier::external_type_specification]
#[verifier::external_body]
pub struct ExError(serde_json::Error);

/// What a number of `serde_json` says.
pub uninterp spec fn number_view(number: serde_json::Number) -> NumberView;

/// `serde_json::Number::from` at `u64`: the number says that integer.
#[verifier::external_body]
fn number_from(n: u64) -> (r: serde_json::Number)
    ensures
        number_view(r) == NumberView::PosInt(n),
{
    serde_json::Number::from(n)
}

/// `i` is the last member called `name`.
pub open spec fn last_at(members: Seq<(String, Json)>, name: Seq<char>, i: int) -> bool {
    &&& 0 <= i < members.len()
    &&& members[i].0@ == name
    &&& forall|j: int| i < j < members.len() ==> (#[trigger] members[j]).0@ != name
}

impl Json {
    /// What the value says.
    pub open spec fn view(self) -> JsonView
        decreases self,
    {
        match self {
            Json::Null => JsonView::Null,
            Json::Bool(b) => JsonView::Bool(b),
            Json::Number(n) => JsonView::Number(number_view(n)),
            Json::Text(s) => JsonView::Text(s@),
            Json::List(items) => JsonView::List(
                Seq::new(
                    items@.len(),
                    |i: int|
                        if 0 <= i < items@.len() {
                            items@[i].view()
                        } else {
                            JsonView::Null
                        },
                ),
            ),
            Json::Dict(members) => JsonView::Dict(
                Map::new(
                    |name: Seq<char>| exists|i: int| last_at(members@, name, i),
                    |name: Seq<char>|
                        {
                            let i = choose|i: int| last_at(members@, name, i);
                            if 0 <= i < members@.len() {
                                members@[i].1.view()
                            } else {
                                JsonView::Null
                            }
                        },
                ),
            ),
        }
    }
}

/// What the members of an object say.
pub open spec fn members_view(members: Seq<(String, Json)>) -> Map<Seq<char>, JsonView> {
    Map::new(
        |name: Seq<char>| exists|i: int| last_at(members, name, i),
        |name: Seq<char>| members[choose|i: int| last_at(members, name, i)].1@,
    )
}

/// What the items of a list say.
pub open spec fn items_view(items: Seq<Json>) -> Seq<JsonView> {
    items.map_values(|j: Json| j@)
}

/// The views of lists and objects in terms of those of their parts.
pub proof fn lemma_view_parts(json: Json)
    ensures
        json matches Json::List(items) ==> json@ == JsonView::List(items_view(items@)),
        json matches Json::Dict(members) ==> json@ == JsonView::Dict(members_view(members@)),
{
    if let Json::List(items) = json {
        assert(json@->List_0 =~= items_view(items@));
    }
    if let Json::Dict(members) = json {
        assert(json@->Dict_0 =~= members_view(members@));
    }
}

proof fn lemma_last_at(members: Seq<(String, Json)>, name: Seq<char>, i: int)
    requires
        last_at(members, name, i),
    ensures
        members_view(members).contains_key(name),
        members_view(members)[name] == members[i].1@,
{
    let k = choose|k: int| last_at(members, name, k);
    if k < i {
        assert(members[i].0@ != name);
    } else if i < k {
        assert(members[k].0@ != name);
    }
}

/// A member added last decides what its name means.
pub proof fn lemma_members_push(members: Seq<(String, Json)>, name: String, value: Json)
    ensures
        members_view(members.push((name, value))) == members_view(members).insert(name@, value@),
{
    let after = members.push((name, value));
    assert(last_at(after, name@, members.len() as int));
    lemma_last_at(after, name@, members.len() as int);
    assert forall|n: Seq<char>| n != name@ implies {
        &&& #[trigger] members_view(members).contains_key(n) == members_view(after).contains_key(n)
        &&& members_view(members).contains_key(n) ==> members_view(members)[n] == members_view(
            after,
        )[n]
    } by {
        if exists|i: int| last_at(members, n, i) {
            let i = choose|i: int| last_at(members, n, i);
            assert(last_at(after, n, i));
            lemma_last_at(members, n, i);
            lemma_last_at(after, n, i);
        }
        if exists|i: int| last_at(after, n, i) {
            let i = choose|i: int| last_at(after, n, i);
            assert(last_at(members, n, i)) by {
                assert forall|j: int| i < j < members.len() implies (#[trigger] members[j]).0@
                    != n by {
                    assert(after[j].0@ != n);
                }
            }
        }
    }
    assert(members_view(after) =~= members_view(members).insert(name@, value@));
}

/// What the member called `name` says: nothing where there is none.
pub open spec fn member_of(json: JsonView, name: Seq<char>) -> JsonView {
    match json {
        JsonView::Dict(members) => if members.contains_key(name) {
            members[name]
        } else {
            JsonView::Null
        },
        _ => JsonView::Null,
    }
}

/// The text, where the value is one.
pub open spec fn text_of(json: JsonView) -> Option<Seq<char>> {
    match json {
        JsonView::Text(s) => Some(s),
        _ => None,
    }
}

/// The truth value, where the value is one.
pub open spec fn bool_of(json: JsonView) -> Option<bool> {
    match json {
        JsonView::Bool(b) => Some(b),
        _ => None,
    }
}

/// The value is a list of texts.
pub open spec fn is_texts(json: JsonView) -> bool {
    &&& json is List
    &&& forall|i: int| 0 <= i < json->List_0.len() ==> #[trigger] json->List_0[i] is Text
}

/// The texts in a list of texts.
pub open spec fn texts_of(json: JsonView) -> Seq<Seq<char>> {
    json->List_0.map_values(|j: JsonView| j->Text_0)
}

impl Json {
    /// The last member called `name`, where the value is an object that has one.
    pub fn member(&self, name: &str) -> (r: Option<&Json>)
        ensures
            match r {
                Some(j) => self@ is Dict && self@->Dict_0.contains_key(name@) && j@ == member_of(
                    self@,
                    name@,
                ),
                None => !(self@ is Dict && self@->Dict_0.contains_key(name@)),
            },
    {
        proof {
            lemma_view_parts(*self);
        }
        match self {
            Json::Dict(members) => {
                let mut i: usize = members.len();
                while i > 0
                    invariant
                        i <= members@.len(),
                        forall|j: int| i <= j < members@.len() ==> (#[trigger] members@[j]).0@ != name@,
                        self@ == JsonView::Dict(members_view(members@)),
                    decreases i,
                {
                    i -= 1;
                    if same_text(members[i].0.as_str(), name) {
                        proof {
                            lemma_last_at(members@, name@, i as int);
                        }
                        return Some(&members[i].1);
                    }
                }
                assert(!members_view(members@).contains_key(name@));
                None
            },
            _ => None,
        }
    }

    /// The text, where the value is one.
    pub fn as_str(&self) -> (r: Option<&String>)
        ensures
            r is Some <==> self@ is Text,
            r is Some ==> text_of(self@) == Some(r->0@),
    {
        match self {
            Json::Text(s) => Some(s),
            _ => None,
        }
    }

    /// The truth value, where the value is one.
    pub fn as_bool(&self) -> (r: Option<bool>)
        ensures
            r == bool_of(self@),
    {
        match self {
            Json::Bool(b) => Some(*b),
            _ => None,
        }
    }

    /// The texts, where the value is a list of texts.
    pub fn string_list(&self) -> (r: Option<Vec<String>>)
        ensures
            r is Some <==> is_texts(self@),
            r is Some ==> r->0@.map_values(|s: String| s@) == texts_of(self@),
    {
        proof {
            lemma_view_parts(*self);
        }
        match self {
            Json::List(items) => {
                let mut texts: Vec<String> = Vec::new();
                let mut i: usize = 0;
                while i < items.len()
                    invariant
                        i <= items@.len(),
                        self@ == JsonView::List(items_view(items@)),
                        texts@.len() == i,
                        forall|j: int| 0 <= j < i ==> items@[j]@ == JsonView::Text(#[trigger] texts@[j]@),
                    decreases items@.len() - i,
                {
                    match &items[i] {
                        Json::Text(s) => {
                            texts.push(s.clone());
                        },
                        _ => {
                            assert(!(self@->List_0[i as int] is Text));
                            return None;
                        },
                    }
                    i += 1;
                }
                assert forall|j: int| 0 <= j < self@->List_0.len() implies #[trigger] self@->List_0[j] is Text by {
                    assert(items@[j]@ == JsonView::Text(texts@[j]@));
                }
                assert(texts@.map_values(|s: String| s@) =~= texts_of(self@));
                Some(texts)
            },
            _ => None,
        }
    }
}

/// What a value of `serde_json` says.
pub uninterp spec fn value_json(value: serde_json::Value) -> JsonView;

/// What `serde_json::from_str` reads in a text, where it is the text of a JSON value.
pub uninterp spec fn parsed_json(text: Seq<char>) -> Option<JsonView>;

/// What `serde_json` writes for a value, in its compact form.
pub uninterp spec fn written_json(json: JsonView) -> Seq<char>;

/// A character that stands for itself between the quotes of a JSON text.
pub open spec fn plain_char(c: char) -> bool {
    c != '"' && c != '\\' && c >= ' '
}

/// A text that stands for itself between quotes.
pub open spec fn plain_text(s: Seq<char>) -> bool {
    forall|i: int| 0 <= i < s.len() ==> plain_char(#[trigger] s[i])
}

/// The hexadecimal digit of a number below sixteen.
pub open spec fn hex_digit(n: int) -> char {
    if n < 10 {
        ('0' as int + n) as char
    } else {
        ('a' as int + (n - 10)) as char
    }
}

/// How a character is written between quotes.
pub open spec fn escaped_char(c: char) -> Seq<char> {
    if plain_char(c) {
        seq![c]
    } else if c == '"' || c == '\\' {
        seq!['\\', c]
    } else if c == '\u{8}' {
        seq!['\\', 'b']
    } else if c == '\t' {
        seq!['\\', 't']
    } else if c == '\n' {
        seq!['\\', 'n']
    } else if c == '\u{c}' {
        seq!['\\', 'f']
    } else if c == '\r' {
        seq!['\\', 'r']
    } else {
        seq!['\\', 'u', '0', '0', hex_digit(c as int / 16), hex_digit(c as int % 16)]
    }
}

/// How a text is written between quotes.
pub open spec fn escaped(s: Seq<char>) -> Seq<char>
    decreases s.len(),
{
    if s.len() == 0 {
        seq![]
    } else {
        escaped(s.drop_last()) + escaped_char(s.last())
    }
}

/// How a text is written as a JSON value.
pub open spec fn quoted(s: Seq<char>) -> Seq<char> {
    seq!['"'] + escaped(s) + seq!['"']
}

/// The members of a flat object, each written as `"name": "text"`, with a comma and a blank
/// between two of them.
pub open spec fn flat_members_text(members: Seq<(Seq<char>, Seq<char>)>) -> Seq<char>
    decreases members.len(),
{
    if members.len() == 0 {
        seq![]
    } else {
        let before = members.drop_last();
        let head = if before.len() == 0 {
            seq![]
        } else {
            flat_members_text(before) + seq![',', ' ']
        };
        head + seq!['"'] + members.last().0 + seq!['"', ':', ' ', '"'] + members.last().1
            + seq!['"']
    }
}

/// A flat object as text.
pub open spec fn flat_text(members: Seq<(Seq<char>, Seq<char>)>) -> Seq<char> {
    seq!['{'] + flat_members_text(members) + seq!['}']
}

/// What a flat object says. Of two members with one name the later one counts.
pub open spec fn flat_members(members: Seq<(Seq<char>, Seq<char>)>) -> Map<Seq<char>, JsonView>
    decreases members.len(),
{
    if members.len() == 0 {
        Map::empty()
    } else {
        flat_members(members.drop_last()).insert(
            members.last().0,
            JsonView::Text(members.last().1),
        )
    }
}

/// Every name and every text of a flat object stands for itself between quotes.
pub open spec fn flat_plain(members: Seq<(Seq<char>, Seq<char>)>) -> bool {
    forall|i: int|
        0 <= i < members.len() ==> plain_text((#[trigger] members[i]).0) && plain_text(
            members[i].1,
        )
}

/// No number in the value has a fraction, and its lists and objects are nested at most `depth`
/// deep.
pub open spec fn exact_within(json: JsonView, depth: nat) -> bool
    decreases depth,
{
    match json {
        JsonView::Null => true,
        JsonView::Bool(_) => true,
        JsonView::Number(n) => !(n is Other),
        JsonView::Text(_) => true,
        JsonView::List(items) => depth > 0 && forall|i: int|
            0 <= i < items.len() ==> exact_within(#[trigger] items[i], (depth - 1) as nat),
        JsonView::Dict(members) => depth > 0 && forall|name: Seq<char>| #[trigger]
            members.contains_key(name) ==> exact_within(members[name], (depth - 1) as nat),
    }
}

/// A value that reads back as it was written: one without fractions, nested as deep as can be
/// read.
pub open spec fn exact_value(json: JsonView) -> bool {
    exact_within(json, 127)
}

/// A value that reads back as it was written where it is a part of another one.
pub open spec fn exact_part(json: JsonView) -> bool {
    exact_within(json, 126)
}

/// An object of values that read back as they were written.
pub open spec fn exact_members(members: Map<Seq<char>, JsonView>) -> bool {
    forall|name: Seq<char>| #[trigger] members.contains_key(name) ==> exact_part(members[name])
}

/// How a value is written as a part of another one.
pub open spec fn part_text(json: JsonView) -> Seq<char> {
    match json {
        JsonView::Text(s) => quoted(s),
        _ => written_json(json),
    }
}

/// How a member is written.
pub open spec fn member_written(name: Seq<char>, value: JsonView) -> Seq<char> {
    quoted(name) + seq![':'] + part_text(value)
}

/// How the members are written one after the other, with a comma between two of them.
pub open spec fn members_written(
    order: Seq<Seq<char>>,
    members: Map<Seq<char>, JsonView>,
) -> Seq<char>
    decreases order.len(),
{
    if order.len() == 0 {
        seq![]
    } else {
        let head = if order.len() == 1 {
            seq![]
        } else {
            members_written(order.drop_last(), members) + seq![',']
        };
        head + member_written(order.last(), members[order.last()])
    }
}

/// How an object is written with its members in the given order.
pub open spec fn object_written(
    order: Seq<Seq<char>>,
    members: Map<Seq<char>, JsonView>,
) -> Seq<char> {
    seq!['{'] + members_written(order, members) + seq!['}']
}

/// The names of the members, each of them once.
pub open spec fn lists_names(order: Seq<Seq<char>>, members: Map<Seq<char>, JsonView>) -> bool {
    &&& order.no_duplicates()
    &&& forall|name: Seq<char>| #[trigger] members.contains_key(name) <==> order.contains(name)
}

/// The text of the object, with its members in some order.
pub open spec fn is_object_text(text: Seq<char>, members: Map<Seq<char>, JsonView>) -> bool {
    exists|order: Seq<Seq<char>>| #[trigger]
        lists_names(order, members) && text == object_written(order, members)
}

/// There is only one order of a single member.
proof fn lemma_one_member(text: Seq<char>, name: Seq<char>, value: JsonView)
    requires
        is_object_text(text, Map::empty().insert(name, value)),
    ensures
        text == seq!['{'] + member_written(name, value) + seq!['}'],
{
    let members = Map::empty().insert(name, value);
    let order = choose|order: Seq<Seq<char>>| #[trigger]
        lists_names(order, members) && text == object_written(order, members);
    assert(members.contains_key(name));
    assert(order.contains(name));
    assert forall|i: int| 0 <= i < order.len() implies order[i] == name by {
        assert(order.contains(order[i]));
        assert(members.contains_key(order[i]));
    }
    if order.len() > 1 {
        assert(order[0] == order[1]);
    }
    assert(order =~= seq![name]);
    assert(members_written(order, members) =~= member_written(name, value));
}

/// `serde_json::from_str` at `Value`. What it reads depends on the text alone. An object of texts
/// that need no escapes, written member by member, reads as those members.
#[verifier::external_body]
fn parse_value(text: &str) -> (r: Result<serde_json::Value, serde_json::Error>)
    ensures
        r is Ok <==> parsed_json(text@) is Some,
        r is Ok ==> parsed_json(text@) == Some(value_json(r->Ok_0)),
        forall|members: Seq<(Seq<char>, Seq<char>)>|
            #![trigger flat_text(members)]
            flat_plain(members) && text@ == flat_text(members) ==> r is Ok && value_json(r->Ok_0)
                == JsonView::Dict(flat_members(members)),
{
    serde_json::from_str::<serde_json::Value>(text)
}

/// A `serde_json::Value` as a value of this library, variant for variant.
#[verifier::external_body]
fn json_of(value: &serde_json::Value) -> (r: Json)
    ensures
        r@ == value_json(*value),
{
    match value {
        serde_json::Value::Null => Json::Null,
        serde_json::Value::Bool(b) => Json::Bool(*b),
        serde_json::Value::Number(n) => Json::Number(n.clone()),
        serde_json::Value::String(s) => Json::Text(s.clone()),
        serde_json::Value::Array(a) => Json::List(a.iter().map(json_of).collect()),
        serde_json::Value::Object(m) => Json::Dict(m.iter().map(|(k, v)| (k.clone(), json_of(v))).collect()),
    }
}

/// The JSON value that a text is the text of.
pub fn parse_json(text: &str) -> (r: Option<Json>)
    ensures
        r is Some <==> parsed_json(text@) is Some,
        r is Some ==> parsed_json(text@) == Some(r->0@),
        forall|members: Seq<(Seq<char>, Seq<char>)>|
            #![trigger flat_text(members)]
            flat_plain(members) && text@ == flat_text(members) ==> r is Some && r->0@
                == JsonView::Dict(flat_members(members)),
{
    match parse_value(text) {
        Ok(value) => Some(json_of(&value)),
        Err(_) => None,
    }
}

/// A value of this library as a `serde_json::Value`, variant for variant. The members of an object
/// are inserted one after the other, so that of two with one name the later one counts.
#[verifier::external_body]
fn value_of(json: &Json) -> (r: serde_json::Value)
    ensures
        value_json(r) == json@,
{
    match json {
        Json::Null => serde_json::Value::Null,
        Json::Bool(b) => serde_json::Value::Bool(*b),
        Json::Number(n) => serde_json::Value::Number(n.clone()),
        Json::Text(s) => serde_json::Value::String(s.clone()),
        Json::List(items) => serde_json::Value::Array(items.iter().map(value_of).collect()),
        Json::Dict(members) => {
            let mut map = serde_json::Map::new();
            for (k, v) in members {
                map.insert(k.clone(), value_of(v));
            }
            serde_json::Value::Object(map)
        },
    }
}

/// The `Display` of `serde_json::Value`. What it writes depends on the value alone, and for a text
/// is that text between quotes. A value without fractions that is nested no deeper than the parser
/// goes reads back as it was.
#[verifier::external_body]
fn value_text(value: &serde_json::Value) -> (r: String)
    ensures
        r@ == written_json(value_json(*value)),
        value_json(*value) matches JsonView::Text(s) ==> r@ == quoted(s),
        exact_value(value_json(*value)) ==> parsed_json(r@) == Some(value_json(*value)),
{
    value.to_string()
}

/// The compact text of a JSON value.
pub fn json_text(json: &Json) -> (r: String)
    ensures
        r@ == written_json(json@),
        json@ matches JsonView::Text(s) ==> r@ == quoted(s),
        exact_value(json@) ==> parsed_json(r@) == Some(json@),
        json@ matches JsonView::Dict(members) ==> exact_members(members) ==> parsed_json(r@)
            == Some(json@),
{
    value_text(&value_of(json))
}

/// `serde_json::to_string` at a hash map of values, into which the members are inserted one after
/// the other, so that of two with one name the later one counts. The text is that of the object,
/// with its members in the order in which the map is walked; which order that is is left unsaid.
/// Whatever it is, an object without fractions that is nested no deeper than the parser goes reads
/// back as it was.
#[verifier::external_body]
fn map_text(members: &Vec<(String, Json)>) -> (r: String)
    ensures
        is_object_text(r@, members_view(members@)),
        exact_members(members_view(members@)) ==> parsed_json(r@) == Some(
            JsonView::Dict(members_view(members@)),
        ),
{
    let mut map: std::collections::HashMap<&String, serde_json::Value> =
        std::collections::HashMap::new();
    for (k, v) in members {
        map.insert(k, value_of(v));
    }
    serde_json::to_string(&map).unwrap()
}

/// What `serde_json::from_str` reads in a text, where it is that of an object of lists of texts;
/// else how the error that it gives shows itself.
pub uninterp spec fn parsed_lists(text: Seq<char>) -> Result<
    Map<Seq<char>, Seq<Seq<char>>>,
    Seq<char>,
>;

/// Every member is a list of texts.
pub open spec fn are_lists(members: Map<Seq<char>, JsonView>) -> bool {
    forall|name: Seq<char>| #[trigger] members.contains_key(name) ==> is_texts(members[name])
}

/// The value is an object of lists of texts.
pub open spec fn is_lists(json: JsonView) -> bool {
    json is Dict && are_lists(json->Dict_0)
}

/// The lists of texts that the members are.
pub open spec fn lists_of(members: Map<Seq<char>, JsonView>) -> Map<Seq<char>, Seq<Seq<char>>> {
    members.map_values(|j: JsonView| texts_of(j))
}

/// What was read, or how the error shows itself.
pub open spec fn lists_view(r: Result<NameMap<Vec<String>>, String>) -> Result<
    Map<Seq<char>, Seq<Seq<char>>>,
    Seq<char>,
> {
    match r {
        Ok(lists) => Ok(lists@.map_values(|list: Vec<String>| texts(list@))),
        Err(e) => Err(e@),
    }
}

/// `serde_json::from_str` at a hash map of lists of texts. What it reads, and how its error shows
/// itself, depends on the text alone. The text of an object of lists of texts, as `serde_json`
/// writes it, reads as those lists; that of any other value is an error.
#[verifier::external_body]
pub(crate) fn parse_lists(text: &str) -> (r: Result<NameMap<Vec<String>>, String>)
    ensures
        lists_view(r) == parsed_lists(text@),
        forall|members: Map<Seq<char>, JsonView>|
            #![trigger written_json(JsonView::Dict(members))]
            are_lists(members) && text@ == written_json(JsonView::Dict(members)) ==> lists_view(r)
                is Ok && lists_view(r)->Ok_0 == lists_of(members),
        forall|json: JsonView|
            #![trigger written_json(json)]
            !is_lists(json) && text@ == written_json(json) ==> lists_view(r) is Err,
{
    match serde_json::from_str::<std::collections::HashMap<String, Vec<String>>>(text) {
        Ok(lists) => Ok(NameMap { entries: lists.into_iter().collect() }),
        Err(e) => Err(format!("{e:?}")),
    }
}

/// The text of an object that asks the server for `action`, with `data` beside it. An `action` in
/// `data` is replaced.
pub fn payload(action: &str, data: Vec<(String, Json)>) -> (r: String)
    ensures
        is_object_text(
            r@,
            members_view(data@).insert("action"@, JsonView::Text(action@)),
        ),
        exact_members(members_view(data@).remove("action"@)) ==> parsed_json(r@) == Some(
            JsonView::Dict(members_view(data@).insert("action"@, JsonView::Text(action@))),
        ),
        members_view(data@).remove("action"@) == Map::<Seq<char>, JsonView>::empty() ==> r@
            == seq!['{'] + member_written("action"@, JsonView::Text(action@)) + seq!['}'],
{
    let mut members = data;
    let name = "action".to_owned();
    let value = Json::Text(action.to_owned());
    proof {
        lemma_members_push(data@, name, value);
    }
    members.push((name, value));
    let r = map_text(&members);
    proof {
        let rest = members_view(data@).remove("action"@);
        let all = members_view(data@).insert("action"@, JsonView::Text(action@));
        assert(all =~= rest.insert("action"@, JsonView::Text(action@)));
        if exact_members(rest) {
            assert forall|n: Seq<char>| #[trigger] all.contains_key(n) implies exact_part(
                all[n],
            ) by {
                if n != "action"@ {
                    assert(rest.contains_key(n));
                }
            }
        }
        if rest == Map::<Seq<char>, JsonView>::empty() {
            lemma_one_member(r@, "action"@, JsonView::Text(action@));
        }
    }
    r
}

/// The list of integers that the bytes are.
pub open spec fn bytes_json(bytes: Seq<u8>) -> JsonView {
    JsonView::List(
        bytes.map_values(|b: u8| JsonView::Number(NumberView::PosInt(b as u64))),
    )
}

/// The list of integers that the bytes are.
pub fn json_bytes(bytes: &Vec<u8>) -> (r: Json)
    ensures
        r@ == bytes_json(bytes@),
        exact_part(r@),
{
    let mut items: Vec<Json> = Vec::new();
    let mut i: usize = 0;
    while i < bytes.len()
        invariant
            i <= bytes@.len(),
            items@.len() == i,
            forall|j: int|
                0 <= j < i ==> (#[trigger] items@[j])@ == JsonView::Number(
                    NumberView::PosInt(bytes@[j] as u64),
                ),
        decreases bytes@.len() - i,
    {
        items.push(Json::Number(number_from(bytes[i] as u64)));
        i += 1;
    }
    let r = Json::List(items);
    proof {
        lemma_view_parts(r);
        assert(r@->List_0 =~= bytes_json(bytes@)->List_0);
        reveal_with_fuel(exact_within, 2);
    }
    r
}

} // verus!
