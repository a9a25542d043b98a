//! Chat messages and their texts.

use vstd::prelude::*;
use vstd::string::*;

use crate::json::{
    escaped, flat_members, flat_members_text, flat_plain, flat_text, json_text, lemma_members_push,
    lemma_view_parts, members_view, parse_json, parsed_json, plain_char, plain_text, quoted,
    written_json, Json, JsonView,
};
use crate::names::NameMap;
use crate::text::same_text;
use crate::words::{
    all_digits, decimal, decimal_text, is_digit, law_decimal_round_trip, lemma_decimal,
    lemma_without_add, lemma_without_none, parse_u64, parsed_u64, remove_all, without,
};

verus! {

/// What a message is about.
#[derive(Clone, Copy, Debug, PartialEq, Eq, Structural)]
pub enum MsgType {
    Text,
    Connect,
    Disconnect,
}

/// A message in a channel.
#[derive(Clone, Debug)]
pub struct Msg {
    pub msg: String,
    pub id: u64,
    pub user: String,
    /// When it was sent, in seconds; in milliseconds where it is yet to be sent.
    pub time: u64,
    pub replying_to: Option<u64>,
    pub _type: MsgType,
}

/// What a message says.
pub struct MsgView {
    pub msg: Seq<char>,
    pub id: u64,
    pub user: Seq<char>,
    pub time: u64,
    pub replying_to: Option<u64>,
    pub _type: MsgType,
}

impl View for Msg {
    type V = MsgView;

    open spec fn view(&self) -> MsgView {
        MsgView {
            msg: self.msg@,
            id: self.id,
            user: self.user@,
            time: self.time,
            replying_to: self.replying_to,
            _type: self._type,
        }
    }
}

/// What the messages of a channel say.
pub open spec fn msgs_view(msgs: Seq<Msg>) -> Seq<MsgView> {
    msgs.map_values(|m: Msg| m@)
}

impl Msg {
    /// The same message once more.
    pub fn copy(&self) -> (r: Msg)
        ensures
            r@ == self@,
    {
        Msg {
            msg: self.msg.clone(),
            id: self.id,
            user: self.user.clone(),
            time: self.time,
            replying_to: self.replying_to,
            _type: self._type,
        }
    }

    /// A message of the client itself, at `now` milliseconds after 1970.
    pub fn command_msg(msg: &str, now: u64) -> (r: Msg)
        ensures
            r@ == command_view(msg@, now),
    {
        Msg {
            msg: msg.to_owned(),
            id: now,
            user: "Command service".to_owned(),
            time: now / 1000,
            replying_to: None,
            _type: MsgType::Text,
        }
    }
}

/// A message of the client itself.
pub open spec fn command_view(msg: Seq<char>, now: u64) -> MsgView {
    MsgView {
        msg,
        id: now,
        user: "Command service"@,
        time: (now / 1000) as u64,
        replying_to: None,
        _type: MsgType::Text,
    }
}

/// The name of what a message is about.
pub open spec fn kind_name(t: MsgType) -> Seq<char> {
    match t {
        MsgType::Text => "Text"@,
        MsgType::Connect => "Connect"@,
        MsgType::Disconnect => "Disconnect"@,
    }
}

/// The text for the message that is replied to.
pub open spec fn reply_text(replying_to: Option<u64>) -> Seq<char> {
    match replying_to {
        Some(id) => decimal(id as nat),
        None => "-1"@,
    }
}

/// The members of a packed message.
pub open spec fn packed_members(m: MsgView) -> Seq<(Seq<char>, Seq<char>)> {
    seq![
        ("user"@, m.user),
        ("time"@, decimal(m.time as nat)),
        ("msg"@, m.msg),
        ("replying_to"@, reply_text(m.replying_to)),
        ("type"@, kind_name(m._type)),
    ]
}

proof fn lemma_flat_push(members: Seq<(Seq<char>, Seq<char>)>, name: Seq<char>, text: Seq<char>)
    ensures
        flat_members_text(members.push((name, text))) == (if members.len() == 0 {
            seq![]
        } else {
            flat_members_text(members) + seq![',', ' ']
        }) + seq!['"'] + name + seq!['"', ':', ' ', '"'] + text + seq!['"'],
        flat_members(members.push((name, text))) == flat_members(members).insert(
            name,
            JsonView::Text(text),
        ),
{
    assert(members.push((name, text)).drop_last() =~= members);
}

/// Adds a member to a flat object that is being written.
fn write_member(
    text: &mut String,
    first: bool,
    name: &str,
    value: &str,
    Ghost(members): Ghost<Seq<(Seq<char>, Seq<char>)>>,
)
    requires
        old(text)@ == seq!['{'] + flat_members_text(members),
        first == (members.len() == 0),
    ensures
        final(text)@ == seq!['{'] + flat_members_text(members.push((name@, value@))),
{
    let ghost before = text@;
    if !first {
        text.push(',');
        text.push(' ');
    }
    text.push('"');
    text.append(name);
    text.push('"');
    text.push(':');
    text.push(' ');
    text.push('"');
    text.append(value);
    text.push('"');
    proof {
        lemma_flat_push(members, name@, value@);
        if first {
            assert(flat_members_text(members) =~= seq![]);
        }
        assert(text@ =~= seq!['{'] + flat_members_text(members.push((name@, value@))));
    }
}

/// The text of a message that is sent: an object of texts, each as it is.
pub fn pack_msg(msg: &Msg) -> (r: String)
    ensures
        r@ == flat_text(packed_members(msg@)),
{
    let time = decimal_text(msg.time as u128);
    let reply = match msg.replying_to {
        Some(id) => decimal_text(id as u128),
        None => "-1".to_owned(),
    };
    let kind = match msg._type {
        MsgType::Text => "Text",
        MsgType::Connect => "Connect",
        MsgType::Disconnect => "Disconnect",
    };
    let ghost all = packed_members(msg@);
    let ghost none = Seq::<(Seq<char>, Seq<char>)>::empty();
    let mut text = String::new();
    text.push('{');
    assert(text@ =~= seq!['{'] + flat_members_text(none));
    write_member(&mut text, true, "user", msg.user.as_str(), Ghost(none));
    assert(none.push(all[0]) =~= all.take(1));
    write_member(&mut text, false, "time", time.as_str(), Ghost(all.take(1)));
    assert(all.take(1).push(all[1]) =~= all.take(2));
    write_member(&mut text, false, "msg", msg.msg.as_str(), Ghost(all.take(2)));
    assert(all.take(2).push(all[2]) =~= all.take(3));
    write_member(&mut text, false, "replying_to", reply.as_str(), Ghost(all.take(3)));
    assert(all.take(3).push(all[3]) =~= all.take(4));
    write_member(&mut text, false, "type", kind, Ghost(all.take(4)));
    assert(all.take(4).push(all[4]) =~= all);
    text.push('}');
    assert(text@ =~= flat_text(all));
    text
}

/// What a field of a raw message says: its text without any quote, or nothing.
pub open spec fn field(raw: Map<Seq<char>, Seq<char>>, name: Seq<char>) -> Seq<char> {
    if raw.contains_key(name) {
        without(raw[name], '"')
    } else {
        seq![]
    }
}

/// What a message is about, by its name.
pub open spec fn type_named(name: Seq<char>) -> MsgType {
    if name == "Connect"@ {
        MsgType::Connect
    } else if name == "Disconnect"@ {
        MsgType::Disconnect
    } else {
        MsgType::Text
    }
}

/// The time of a raw message is a number.
pub open spec fn has_time(raw: Map<Seq<char>, Seq<char>>) -> bool {
    parsed_u64(field(raw, "time"@)) is Some
}

/// The message that a raw one stands for. Its time in milliseconds is its id.
pub open spec fn unpacked(raw: Map<Seq<char>, Seq<char>>) -> MsgView {
    let time = parsed_u64(field(raw, "time"@))->0;
    MsgView {
        msg: field(raw, "msg"@),
        id: time,
        user: field(raw, "user"@),
        time: (time / 1000) as u64,
        replying_to: parsed_u64(field(raw, "replying_to"@)),
        _type: type_named(field(raw, "type"@)),
    }
}

/// The texts of a raw message.
pub open spec fn raw_view(raw: NameMap<String>) -> Map<Seq<char>, Seq<char>> {
    raw@.map_values(|s: String| s@)
}

fn get_field(raw: &NameMap<String>, name: &str) -> (r: String)
    ensures
        r@ == field(raw_view(*raw), name@),
{
    match raw.get(name) {
        Some(text) => remove_all(text.as_str(), '"'),
        None => {
            let none = String::new();
            assert(none@ =~= seq![]);
            none
        },
    }
}

/// Whether the time of a raw message is a number.
pub fn time_given(raw: &NameMap<String>) -> (r: bool)
    ensures
        r == has_time(raw_view(*raw)),
{
    parse_u64(get_field(raw, "time").as_str()).is_some()
}

/// The message that a raw one stands for.
pub fn unpack_msg(raw: &NameMap<String>) -> (r: Msg)
    requires
        has_time(raw_view(*raw)),
    ensures
        r@ == unpacked(raw_view(*raw)),
{
    let time = parse_u64(get_field(raw, "time").as_str()).unwrap();
    let kind = get_field(raw, "type");
    Msg {
        msg: get_field(raw, "msg"),
        id: time,
        user: get_field(raw, "user"),
        time: time / 1000,
        replying_to: parse_u64(get_field(raw, "replying_to").as_str()),
        _type: if same_text(kind.as_str(), "Connect") {
            MsgType::Connect
        } else if same_text(kind.as_str(), "Disconnect") {
            MsgType::Disconnect
        } else {
            MsgType::Text
        },
    }
}

/// The JSON texts of an object's members.
pub open spec fn member_texts(members: Map<Seq<char>, JsonView>) -> Map<Seq<char>, Seq<char>> {
    members.map_values(|j: JsonView| written_json(j))
}

/// Texts among the members are written between quotes.
pub open spec fn texts_quoted(members: Map<Seq<char>, JsonView>) -> bool {
    forall|name: Seq<char>| #[trigger]
        members.contains_key(name) && members[name] is Text ==> written_json(members[name])
            == quoted(members[name]->Text_0)
}

/// The JSON texts of the members, where the value is an object.
pub fn raw_members(json: &Json) -> (r: Option<NameMap<String>>)
    ensures
        r is Some <==> json@ is Dict,
        r is Some ==> raw_view(r->0) == member_texts(json@->Dict_0) && texts_quoted(json@->Dict_0),
{
    proof {
        lemma_view_parts(*json);
    }
    match json {
        Json::Dict(members) => {
            let mut raw: NameMap<String> = NameMap::new();
            let mut i: usize = 0;
            proof {
                assert(members_view(members@.take(0)) =~= Map::empty());
                assert(raw_view(raw) =~= member_texts(members_view(members@.take(0))));
            }
            while i < members.len()
                invariant
                    i <= members@.len(),
                    raw_view(raw) == member_texts(members_view(members@.take(i as int))),
                    texts_quoted(members_view(members@.take(i as int))),
                decreases members@.len() - i,
            {
                let text = json_text(&members[i].1);
                let ghost before = members_view(members@.take(i as int));
                let ghost name = members@[i as int].0;
                let ghost value = members@[i as int].1;
                let ghost raw_before = raw@;
                proof {
                    assert(members@.take(i + 1) =~= members@.take(i as int).push((name, value)));
                    lemma_members_push(members@.take(i as int), name, value);
                }
                raw.insert(members[i].0.as_str(), text);
                proof {
                    let after = members_view(members@.take(i + 1));
                    assert(after == before.insert(name@, value@));
                    assert(raw_view(raw) =~= member_texts(after)) by {
                        assert(raw_view(raw) =~= raw_before.map_values(|s: String| s@).insert(
                            name@,
                            text@,
                        ));
                        assert(member_texts(after) =~= member_texts(before).insert(name@, text@));
                    }
                    assert forall|n: Seq<char>| #[trigger]
                        after.contains_key(n) && after[n] is Text implies written_json(after[n])
                        == quoted(after[n]->Text_0) by {
                        if n != name@ {
                            assert(before.contains_key(n));
                        }
                    }
                }
                i += 1;
            }
            assert(members@.take(members@.len() as int) =~= members@);
            Some(raw)
        },
        _ => None,
    }
}

/// The message in place of one that cannot be read.
pub open spec fn garbled() -> MsgView {
    MsgView {
        msg: "<Garbled message>"@,
        id: 0,
        user: "???"@,
        time: 0,
        replying_to: None,
        _type: MsgType::Text,
    }
}

/// A value from which a message can be made.
pub open spec fn readable_json(json: JsonView) -> bool {
    json is Dict ==> has_time(member_texts(json->Dict_0))
}

/// The message that a value stands for.
pub open spec fn msg_of_json(json: JsonView) -> MsgView {
    match json {
        JsonView::Dict(members) => unpacked(member_texts(members)),
        _ => garbled(),
    }
}

/// A text from which a message can be made.
pub open spec fn readable(raw: Seq<char>) -> bool {
    parsed_json(raw) is Some && readable_json(parsed_json(raw)->0)
}

/// A message whose texts need no escapes.
pub open spec fn plain_msg(m: MsgView) -> bool {
    plain_text(m.user) && plain_text(m.msg)
}

/// What becomes of a message on its way: its time in milliseconds becomes its id.
pub open spec fn received(m: MsgView) -> MsgView {
    MsgView { id: m.time, time: (m.time / 1000) as u64, ..m }
}

/// The message that a value stands for, where one can be made.
pub fn msg_from_json(json: &Json) -> (r: Option<Msg>)
    ensures
        r is Some <==> readable_json(json@),
        r is Some ==> r->0@ == msg_of_json(json@),
        json@ is Dict ==> texts_quoted(json@->Dict_0),
{
    match raw_members(json) {
        Some(raw) => {
            if !time_given(&raw) {
                return None;
            }
            Some(unpack_msg(&raw))
        },
        None => Some(
            Msg {
                msg: "<Garbled message>".to_owned(),
                id: 0,
                user: "???".to_owned(),
                time: 0,
                replying_to: None,
                _type: MsgType::Text,
            },
        ),
    }
}

/// A plain text is written between quotes as it is.
pub proof fn lemma_escaped_plain(s: Seq<char>)
    requires
        plain_text(s),
    ensures
        escaped(s) == s,
    decreases s.len(),
{
    if s.len() > 0 {
        assert(plain_char(s.last()));
        assert forall|i: int| 0 <= i < s.drop_last().len() implies plain_char(
            #[trigger] s.drop_last()[i],
        ) by {
            assert(plain_char(s[i]));
        }
        lemma_escaped_plain(s.drop_last());
        assert(escaped(s) =~= s);
    } else {
        assert(escaped(s) =~= s);
    }
}

/// Without its quotes a plain text is itself again.
pub proof fn lemma_unquoted(s: Seq<char>)
    requires
        plain_text(s),
    ensures
        without(quoted(s), '"') == s,
{
    lemma_escaped_plain(s);
    let q = seq!['"'];
    assert(q.drop_last() =~= Seq::<char>::empty());
    assert(without(Seq::<char>::empty(), '"') =~= Seq::<char>::empty());
    assert(without(q, '"') =~= Seq::<char>::empty());
    lemma_without_add(q, s, '"');
    lemma_without_add(q + s, q, '"');
    assert forall|i: int| 0 <= i < s.len() implies #[trigger] s[i] != '"' by {
        assert(plain_char(s[i]));
    }
    lemma_without_none(s, '"');
    assert(without(quoted(s), '"') =~= s);
}

proof fn lemma_digits_plain(s: Seq<char>)
    requires
        all_digits(s),
    ensures
        plain_text(s),
{
    assert forall|i: int| 0 <= i < s.len() implies plain_char(#[trigger] s[i]) by {
        assert(is_digit(s[i]));
    }
}

/// The members of a packed message need no escapes where its texts need none.
pub proof fn lemma_packed_plain(m: MsgView)
    requires
        plain_msg(m),
    ensures
        flat_plain(packed_members(m)),
{
    reveal_strlit("user");
    reveal_strlit("time");
    reveal_strlit("msg");
    reveal_strlit("replying_to");
    reveal_strlit("type");
    reveal_strlit("Text");
    reveal_strlit("Connect");
    reveal_strlit("Disconnect");
    reveal_strlit("-1");
    lemma_decimal(m.time as nat);
    lemma_digits_plain(decimal(m.time as nat));
    if let Some(id) = m.replying_to {
        lemma_decimal(id as nat);
        lemma_digits_plain(decimal(id as nat));
    }
}

/// What a packed message reads as gives the message back.
pub proof fn lemma_packed_unpacked(m: MsgView)
    requires
        plain_msg(m),
        texts_quoted(flat_members(packed_members(m))),
    ensures
        readable_json(JsonView::Dict(flat_members(packed_members(m)))),
        msg_of_json(JsonView::Dict(flat_members(packed_members(m)))) == received(m),
{
    let all = packed_members(m);
    let members = flat_members(all);
    let none = Seq::<(Seq<char>, Seq<char>)>::empty();
    lemma_packed_plain(m);
    lemma_flat_push(none, all[0].0, all[0].1);
    lemma_flat_push(none.push(all[0]), all[1].0, all[1].1);
    lemma_flat_push(none.push(all[0]).push(all[1]), all[2].0, all[2].1);
    lemma_flat_push(none.push(all[0]).push(all[1]).push(all[2]), all[3].0, all[3].1);
    lemma_flat_push(none.push(all[0]).push(all[1]).push(all[2]).push(all[3]), all[4].0, all[4].1);
    assert(none.push(all[0]).push(all[1]).push(all[2]).push(all[3]).push(all[4]) =~= all);
    reveal_strlit("user");
    reveal_strlit("time");
    reveal_strlit("msg");
    reveal_strlit("replying_to");
    reveal_strlit("type");
    assert("user"@ != "time"@) by {
        assert("user"@[0] != "time"@[0]);
    }
    assert("user"@.len() == 4 && "time"@.len() == 4 && "msg"@.len() == 3 && "replying_to"@.len() == 11
        && "type"@.len() == 4);
    assert("user"@ != "type"@) by {
        assert("user"@[0] != "type"@[0]);
    }
    assert("time"@ != "type"@) by {
        assert("time"@[1] != "type"@[1]);
    }
    let raw = member_texts(members);
    assert forall|i: int| 0 <= i < 5 implies field(raw, (#[trigger] all[i]).0) == all[i].1 by {
        assert(members.contains_key(all[i].0) && members[all[i].0] == JsonView::Text(all[i].1));
        assert(plain_text(all[i].1));
        lemma_unquoted(all[i].1);
    }
    assert(field(raw, all[0].0) == m.user);
    assert(field(raw, all[1].0) == decimal(m.time as nat));
    assert(field(raw, all[2].0) == m.msg);
    assert(field(raw, all[3].0) == reply_text(m.replying_to));
    assert(field(raw, all[4].0) == kind_name(m._type));
    law_decimal_round_trip(m.time as nat);
    if let Some(id) = m.replying_to {
        law_decimal_round_trip(id as nat);
    } else {
        reveal_strlit("-1");
        assert(!is_digit("-1"@[0]));
    }
    reveal_strlit("Text");
    reveal_strlit("Connect");
    reveal_strlit("Disconnect");
    assert("Text"@.len() == 4 && "Connect"@.len() == 7 && "Disconnect"@.len() == 10);
}

/// The message that a text stands for. The text of a packed message gives that message back.
pub fn parse_raw(raw: &str) -> (r: Option<Msg>)
    ensures
        r is Some <==> readable(raw@),
        r is Some ==> r->0@ == msg_of_json(parsed_json(raw@)->0),
        forall|m: MsgView|
            #![trigger packed_members(m)]
            plain_msg(m) && raw@ == flat_text(packed_members(m)) ==> r is Some && r->0@
                == received(m),
{
    match parse_json(raw) {
        Some(json) => {
            let r = msg_from_json(&json);
            proof {
                assert forall|m: MsgView|
                    #![trigger packed_members(m)]
                    plain_msg(m) && raw@ == flat_text(packed_members(m)) implies r is Some
                    && r->0@ == received(m) by {
                    lemma_packed_plain(m);
                    lemma_packed_unpacked(m);
                }
            }
            r
        },
        None => {
            proof {
                assert forall|m: MsgView|
                    #![trigger packed_members(m)]
                    plain_msg(m) && raw@ == flat_text(packed_members(m)) implies false by {
                    lemma_packed_plain(m);
                }
            }
            None
        },
    }
}

} // verus!
