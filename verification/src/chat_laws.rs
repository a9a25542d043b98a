//! What holds of the screen that shows the channels of a server.

use vstd::prelude::*;
use vstd::string::*;

use crate::effect::{Delivery, EffectView};
use crate::input::Key;
use crate::json::{flat_members_text, flat_text, JsonView};
use crate::message_view::{first_with_id, has_id, lemma_found};
use crate::msg::{packed_members, MsgType, MsgView};
use crate::state::{AppView, ConnectState, ConnectedField, LoginField, Screen, ServerView};
use crate::text_laws::{is_free_of, law_pieces_on_both_sides, law_unsplit_text_is_one_piece};
use crate::wire::IncomingView;
use crate::words::{decimal, join_with, split_on};

verus! {

/// The channels are shown, and this one is selected.
pub open spec fn is_in(s: AppView, name: Seq<char>) -> bool {
    &&& s.screen == Screen::Connected
    &&& s.selected_channel is Some
    &&& s.selected_channel->0 < s.current_server.channels.len()
    &&& s.current_server.channels[s.selected_channel->0 as int] == name
}

/// The user types in a channel, and this is the text of the input line.
pub open spec fn types_in(s: AppView, name: Seq<char>, text: Seq<char>) -> bool {
    &&& is_in(s, name)
    &&& s.selected_connected_field == ConnectedField::Typing
    &&& s.new_message_bufs[name].buf == text
}

/// The user moves among the messages of a channel.
pub open spec fn moves_in(s: AppView, name: Seq<char>) -> bool {
    is_in(s, name) && s.selected_connected_field == ConnectedField::Channels
}

/// The names of what a request says are different.
pub proof fn lemma_request_names()
    ensures
        "action"@ != "session"@,
        "action"@ != "msg"@,
        "action"@ != "channel"@,
        "action"@ != "user"@,
        "action"@ != "channelname"@,
        "action"@ != "username"@,
        "action"@ != "password"@,
        "session"@ != "msg"@,
        "session"@ != "channel"@,
        "session"@ != "user"@,
        "session"@ != "channelname"@,
        "session"@ != "username"@,
        "session"@ != "password"@,
        "msg"@ != "channel"@,
        "username"@ != "password"@,
{
    reveal_strlit("action");
    reveal_strlit("session");
    reveal_strlit("msg");
    reveal_strlit("channel");
    reveal_strlit("user");
    reveal_strlit("channelname");
    reveal_strlit("username");
    reveal_strlit("password");
    assert("session"@[0] != "channel"@[0]);
    assert("username"@[0] != "password"@[0]);
    assert("action"@.len() == 6 && "session"@.len() == 7 && "msg"@.len() == 3 && "channel"@.len()
        == 7 && "user"@.len() == 4 && "channelname"@.len() == 11 && "username"@.len() == 8
        && "password"@.len() == 8);
}

/// The names of the kinds of messages.
pub open spec fn kind_text(t: MsgType) -> Seq<char> {
    match t {
        MsgType::Text => "Text"@,
        MsgType::Connect => "Connect"@,
        MsgType::Disconnect => "Disconnect"@,
    }
}

/// A message goes over the wire as an object of texts with its user, its time, its text, the
/// message that it replies to and its kind, in this order. Where it replies to none, that is `-1`.
pub proof fn law_packed_text(m: MsgView)
    ensures
        flat_text(packed_members(m)) == "{\"user\": \""@ + m.user + "\", \"time\": \""@ + decimal(
            m.time as nat,
        ) + "\", \"msg\": \""@ + m.msg + "\", \"replying_to\": \""@ + (match m.replying_to {
            Some(id) => decimal(id as nat),
            None => "-1"@,
        }) + "\", \"type\": \""@ + kind_text(m._type) + "\"}"@,
{
    let time = decimal(m.time as nat);
    let reply = packed_members(m)[3].1;
    let kind = packed_members(m)[4].1;
    let none = Seq::<(Seq<char>, Seq<char>)>::empty();
    let one = none.push(("user"@, m.user));
    let two = one.push(("time"@, time));
    let three = two.push(("msg"@, m.msg));
    let four = three.push(("replying_to"@, reply));
    let five = four.push(("type"@, kind));
    assert(packed_members(m) =~= five);
    let a = "{\"user\": \""@ + m.user;
    let b = a + "\", \"time\": \""@ + time;
    let c = b + "\", \"msg\": \""@ + m.msg;
    let d = c + "\", \"replying_to\": \""@ + reply;
    let e = d + "\", \"type\": \""@ + kind;
    assert(seq!['{'] + flat_members_text(one) =~= a + seq!['"']) by {
        reveal_strlit("user");
        reveal_strlit("{\"user\": \"");
        assert(one.drop_last() =~= none);
    }
    assert("\", \"time\": \""@ =~= between_members("time"@)) by {
        reveal_strlit("time");
        reveal_strlit("\", \"time\": \"");
    }
    assert("\", \"msg\": \""@ =~= between_members("msg"@)) by {
        reveal_strlit("msg");
        reveal_strlit("\", \"msg\": \"");
    }
    assert("\", \"replying_to\": \""@ =~= between_members("replying_to"@)) by {
        reveal_strlit("replying_to");
        reveal_strlit("\", \"replying_to\": \"");
    }
    assert("\", \"type\": \""@ =~= between_members("type"@)) by {
        reveal_strlit("type");
        reveal_strlit("\", \"type\": \"");
    }
    lemma_next_member(one, "time"@, time, a);
    lemma_next_member(two, "msg"@, m.msg, b);
    lemma_next_member(three, "replying_to"@, reply, c);
    lemma_next_member(four, "type"@, kind, d);
    assert(flat_text(five) =~= e + "\"}"@) by {
        reveal_strlit("\"}");
        assert(flat_text(five) == seq!['{'] + flat_members_text(five) + seq!['}']);
        assert(seq!['"'] + seq!['}'] =~= "\"}"@);
        assert(e + seq!['"'] + seq!['}'] =~= e + (seq!['"'] + seq!['}']));
    }
}

/// What stands between two texts of a flat object, where the second of them is called `name`.
spec fn between_members(name: Seq<char>) -> Seq<char> {
    seq!['"', ',', ' ', '"'] + name + seq!['"', ':', ' ', '"']
}

proof fn lemma_next_member(
    members: Seq<(Seq<char>, Seq<char>)>,
    name: Seq<char>,
    text: Seq<char>,
    head: Seq<char>,
)
    requires
        members.len() > 0,
        seq!['{'] + flat_members_text(members) == head + seq!['"'],
    ensures
        seq!['{'] + flat_members_text(members.push((name, text))) == head + between_members(name)
            + text + seq!['"'],
{
    let all = members.push((name, text));
    assert(all.drop_last() =~= members);
    let flat = flat_members_text(members);
    assert(flat_members_text(all) == flat + seq![',', ' '] + seq!['"'] + name + seq![
        '"',
        ':',
        ' ',
        '"',
    ] + text + seq!['"']);
    assert(seq!['{'] + flat_members_text(all) =~= (seq!['{'] + flat) + seq![',', ' ', '"'] + name
        + seq!['"', ':', ' ', '"'] + text + seq!['"']);
    assert(seq!['"'] + seq![',', ' ', '"'] =~= seq!['"', ',', ' ', '"']);
    assert((head + seq!['"']) + seq![',', ' ', '"'] + name + seq!['"', ':', ' ', '"'] + text
        + seq!['"'] =~= head + between_members(name) + text + seq!['"']);
}

/// Enter on a line that is no command sends one message: the text of the line, from the user, at
/// this time, in reply to what is replied to, to the channel that is selected. The line is empty
/// then and nothing is replied to any more. Nothing else changes.
pub proof fn law_message_goes_to_the_selected_channel(
    s: AppView,
    name: Seq<char>,
    text: Seq<char>,
    heard: Option<IncomingView>,
    pings: Seq<Option<u128>>,
    now: u64,
)
    requires
        types_in(s, name, text),
        text.len() > 0,
        text[0] != '/',
    ensures
        ({
            let (after, effects, known) = s.key_step(Key::Enter, heard, pings, now);
            let packed = "{\"user\": \""@ + s.current_user + "\", \"time\": \""@ + decimal(
                now as nat,
            ) + "\", \"msg\": \""@ + text + "\", \"replying_to\": \""@ + (match s.replying_to {
                Some(id) => decimal(id as nat),
                None => "-1"@,
            }) + "\", \"type\": \""@ + "Text"@ + "\"}"@;
            &&& effects == seq![
                EffectView::Send(
                    Some(
                        JsonView::Dict(
                            map![
                                "action"@ => JsonView::Text("message"@),
                                "session"@ => JsonView::Text(s.session),
                                "channel"@ => JsonView::Text(name),
                                "msg"@ => JsonView::Text(packed),
                            ],
                        ),
                    ),
                    Delivery::Chat,
                ),
            ]
            &&& after.new_message_bufs[name].buf.len() == 0
            &&& after.new_message_bufs[name].cursor_pos == 0
            &&& after.new_message_bufs[name].scroll_offset == 0
            &&& after.new_message_bufs[name].bufsize == s.new_message_bufs[name].bufsize
            &&& after.replying_to is None
            &&& after == (AppView {
                new_message_bufs: s.new_message_bufs.insert(name, after.new_message_bufs[name]),
                replying_to: None,
                ..s
            })
            &&& known == pings
        }),
{
    let m = MsgView {
        msg: text,
        id: 0,
        user: s.current_user,
        time: now,
        replying_to: s.replying_to,
        _type: MsgType::Text,
    };
    law_packed_text(m);
    lemma_request_names();
    let (after, effects, known) = s.key_step(Key::Enter, heard, pings, now);
    let packed = flat_text(packed_members(m));
    assert(effects[0]->Send_0->0->Dict_0 =~= map![
        "action"@ => JsonView::Text("message"@),
        "session"@ => JsonView::Text(s.session),
        "channel"@ => JsonView::Text(name),
        "msg"@ => JsonView::Text(packed),
    ]);
    assert(effects =~= seq![effects[0]]);
}

/// Enter on an empty line does nothing.
pub proof fn law_nothing_is_not_sent(
    s: AppView,
    name: Seq<char>,
    heard: Option<IncomingView>,
    pings: Seq<Option<u128>>,
    now: u64,
)
    requires
        types_in(s, name, seq![]),
    ensures
        s.key_step(Key::Enter, heard, pings, now) == (s, Seq::<EffectView>::empty(), pings),
{
}

/// The commands about a user, by their names.
pub open spec fn names_user_command(name: Seq<char>) -> bool {
    ||| name == "kick"@
    ||| name == "ban"@
    ||| name == "banip"@
    ||| name == "unban"@
    ||| name == "unbanip"@
    ||| name == "dm"@
}

/// The names of the commands are different, and there is no blank in them.
proof fn lemma_command_names(name: Seq<char>)
    requires
        names_user_command(name) || name == "newchannel"@ || name == "flushkey"@ || name == "test"@
            || name == "help"@,
    ensures
        is_free_of(name, ' '),
        names_user_command(name) ==> name != "newchannel"@ && name != "flushkey"@ && name != "test"@
            && name != "help"@,
        name == "newchannel"@ ==> name != "flushkey"@ && name != "test"@ && name != "help"@,
        name == "flushkey"@ ==> name != "test"@ && name != "help"@,
        name == "test"@ ==> name != "help"@,
{
    reveal_strlit("kick");
    reveal_strlit("ban");
    reveal_strlit("banip");
    reveal_strlit("unban");
    reveal_strlit("unbanip");
    reveal_strlit("dm");
    reveal_strlit("newchannel");
    reveal_strlit("flushkey");
    reveal_strlit("test");
    reveal_strlit("help");
    assert("kick"@[0] == 'k' && "test"@[0] == 't' && "help"@[0] == 'h');
    assert("newchannel"@.len() == 10 && "flushkey"@.len() == 8);
}

/// The words of a line behind its slash: the first of them, the second, and what is behind it.
proof fn lemma_command_words(name: Seq<char>, arg: Seq<char>, more: Seq<char>)
    requires
        is_free_of(name, ' '),
        is_free_of(arg, ' '),
        more.len() > 0 ==> more[0] == ' ',
    ensures
        ({
            let line = "/"@ + name + " "@ + arg + more;
            &&& line.len() > 0
            &&& line[0] == '/'
            &&& split_on(line.skip(1), ' ').len() >= 2
            &&& split_on(line.skip(1), ' ')[0] == name
            &&& split_on(line.skip(1), ' ')[1] == arg
        }),
{
    reveal_strlit("/");
    reveal_strlit(" ");
    let line = "/"@ + name + " "@ + arg + more;
    let rest = arg + more;
    assert(line.skip(1) =~= name + seq![' '] + rest);
    law_pieces_on_both_sides(name, rest, ' ');
    law_unsplit_text_is_one_piece(name, ' ');
    law_unsplit_text_is_one_piece(arg, ' ');
    if more.len() == 0 {
        assert(rest =~= arg);
    } else {
        let last = more.skip(1);
        assert(rest =~= arg + seq![' '] + last);
        law_pieces_on_both_sides(arg, last, ' ');
    }
}

/// A command about a user, with the user behind it, sends one request: that this be done about this
/// user, in this session. So does the command for a new channel, with the name of the channel. The
/// line is empty then, and nothing else changes.
pub proof fn law_command_is_sent_with_its_argument(
    s: AppView,
    channel: Seq<char>,
    name: Seq<char>,
    arg: Seq<char>,
    more: Seq<char>,
    heard: Option<IncomingView>,
    pings: Seq<Option<u128>>,
    now: u64,
)
    requires
        names_user_command(name) || name == "newchannel"@,
        is_free_of(arg, ' '),
        more.len() > 0 ==> more[0] == ' ',
        types_in(s, channel, "/"@ + name + " "@ + arg + more),
    ensures
        ({
            let (after, effects, known) = s.key_step(Key::Enter, heard, pings, now);
            let about = if name == "newchannel"@ {
                "channelname"@
            } else {
                "user"@
            };
            &&& effects == seq![
                EffectView::Send(
                    Some(
                        JsonView::Dict(
                            map![
                                "action"@ => JsonView::Text(name),
                                "session"@ => JsonView::Text(s.session),
                                about => JsonView::Text(arg),
                            ],
                        ),
                    ),
                    Delivery::Required,
                ),
            ]
            &&& after.new_message_bufs[channel].buf.len() == 0
            &&& after.new_message_bufs[channel].cursor_pos == 0
            &&& after == (AppView {
                new_message_bufs: s.new_message_bufs.insert(
                    channel,
                    after.new_message_bufs[channel],
                ),
                ..s
            })
            &&& known == pings
        }),
{
    lemma_command_names(name);
    lemma_command_words(name, arg, more);
    lemma_request_names();
    let (after, effects, known) = s.key_step(Key::Enter, heard, pings, now);
    let about = if name == "newchannel"@ {
        "channelname"@
    } else {
        "user"@
    };
    assert(effects[0]->Send_0->0->Dict_0 =~= map![
        "action"@ => JsonView::Text(name),
        "session"@ => JsonView::Text(s.session),
        about => JsonView::Text(arg),
    ]);
    assert(effects =~= seq![effects[0]]);
}

/// The words of a line that is only a command.
proof fn lemma_command_alone(name: Seq<char>)
    requires
        is_free_of(name, ' '),
    ensures
        ({
            let line = "/"@ + name;
            &&& line.len() > 0
            &&& line[0] == '/'
            &&& split_on(line.skip(1), ' ') == seq![name]
        }),
{
    reveal_strlit("/");
    assert(("/"@ + name).skip(1) =~= name);
    law_unsplit_text_is_one_piece(name, ' ');
}

/// A command about a user or a new channel does nothing where it does not say which.
pub proof fn law_command_needs_its_argument(
    s: AppView,
    channel: Seq<char>,
    name: Seq<char>,
    heard: Option<IncomingView>,
    pings: Seq<Option<u128>>,
    now: u64,
)
    requires
        names_user_command(name) || name == "newchannel"@ || name == "flushkey"@,
        types_in(s, channel, "/"@ + name),
    ensures
        ({
            let (after, effects, known) = s.key_step(Key::Enter, heard, pings, now);
            &&& effects.len() == 0
            &&& after.new_message_bufs[channel].buf.len() == 0
            &&& after == (AppView {
                new_message_bufs: s.new_message_bufs.insert(
                    channel,
                    after.new_message_bufs[channel],
                ),
                ..s
            })
            &&& known == pings
        }),
{
    lemma_command_names(name);
    lemma_command_alone(name);
}

/// The command about keys does nothing, whatever stands behind it.
pub proof fn law_keys_are_not_flushed(
    s: AppView,
    channel: Seq<char>,
    more: Seq<char>,
    heard: Option<IncomingView>,
    pings: Seq<Option<u128>>,
    now: u64,
)
    requires
        more.len() > 0 ==> more[0] == ' ',
        types_in(s, channel, "/"@ + "flushkey"@ + more),
    ensures
        ({
            let (after, effects, known) = s.key_step(Key::Enter, heard, pings, now);
            &&& effects.len() == 0
            &&& after.new_message_bufs[channel].buf.len() == 0
            &&& after == (AppView {
                new_message_bufs: s.new_message_bufs.insert(
                    channel,
                    after.new_message_bufs[channel],
                ),
                ..s
            })
            &&& known == pings
        }),
{
    let name = "flushkey"@;
    let line = "/"@ + name + more;
    reveal_strlit("/");
    lemma_command_names(name);
    lemma_flushkey();
    law_unsplit_text_is_one_piece(name, ' ');
    if more.len() == 0 {
        assert(line.skip(1) =~= name);
    } else {
        assert(line.skip(1) =~= name + seq![' '] + more.skip(1));
        law_pieces_on_both_sides(name, more.skip(1), ' ');
    }
    assert(split_on(line.skip(1), ' ')[0] == name);
}

proof fn lemma_flushkey()
    ensures
        !names_user_command("flushkey"@),
        "flushkey"@ != "newchannel"@,
{
    reveal_strlit("kick");
    reveal_strlit("ban");
    reveal_strlit("banip");
    reveal_strlit("unban");
    reveal_strlit("unbanip");
    reveal_strlit("dm");
    reveal_strlit("newchannel");
    reveal_strlit("flushkey");
    assert("flushkey"@.len() == 8);
}

/// The message is one of the client itself, with this text and of this time.
pub open spec fn is_answer(m: MsgView, text: Seq<char>, now: u64) -> bool {
    &&& m.msg == text
    &&& m.user == "Command service"@
    &&& m.id == now
    &&& m.time == now / 1000
    &&& m.replying_to is None
    &&& m._type == MsgType::Text
}

/// The client has answered in the channel with these texts, one message each, behind all others;
/// its input line is empty, and nothing else has changed.
pub open spec fn has_answered(
    before: AppView,
    after: AppView,
    channel: Seq<char>,
    answers: Seq<Seq<char>>,
    now: u64,
) -> bool {
    let old_msgs = before.current_server.msgs[channel];
    let new_msgs = after.current_server.msgs[channel];
    &&& new_msgs.len() == old_msgs.len() + answers.len()
    &&& new_msgs.take(old_msgs.len() as int) == old_msgs
    &&& forall|i: int|
        0 <= i < answers.len() ==> is_answer(
            #[trigger] new_msgs[old_msgs.len() + i],
            answers[i],
            now,
        )
    &&& after.new_message_bufs[channel].buf.len() == 0
    &&& after == (AppView {
        new_message_bufs: before.new_message_bufs.insert(
            channel,
            after.new_message_bufs[channel],
        ),
        current_server: ServerView {
            msgs: before.current_server.msgs.insert(channel, new_msgs),
            ..before.current_server
        },
        ..before
    })
}

proof fn lemma_help()
    ensures
        join_with(crate::commands::user_commands(), " "@) == "User commands:"@ + " "@ + "/test"@
            + " "@ + "/help"@ + " "@ + "/dm <user>"@,
        join_with(crate::commands::admin_commands(), " "@) == "Admin commands:"@ + " "@
            + "/newchannel <channel_name>"@ + " "@ + "/kick <user>"@ + " "@ + "/ban <user>"@ + " "@
            + "/unban <user>"@ + " "@ + "/banip <user>"@ + " "@ + "/unbanip <user>"@,
{
    let users = crate::commands::user_commands();
    let admins = crate::commands::admin_commands();
    reveal_with_fuel(join_with, 8);
    assert(users.drop_last() =~= seq!["User commands:"@, "/test"@, "/help"@]);
    assert(seq!["User commands:"@, "/test"@, "/help"@].drop_last() =~= seq![
        "User commands:"@,
        "/test"@,
    ]);
    assert(seq!["User commands:"@, "/test"@].drop_last() =~= seq!["User commands:"@]);
    let a6 = admins.take(6);
    let a5 = admins.take(5);
    let a4 = admins.take(4);
    let a3 = admins.take(3);
    let a2 = admins.take(2);
    let a1 = admins.take(1);
    assert(admins.drop_last() =~= a6);
    assert(a6.drop_last() =~= a5);
    assert(a5.drop_last() =~= a4);
    assert(a4.drop_last() =~= a3);
    assert(a3.drop_last() =~= a2);
    assert(a2.drop_last() =~= a1);
}

/// The client answers every other command in the channel in which it was typed: a test with a test,
/// a call for help with the commands that there are, and any other word with that it is none.
pub proof fn law_other_commands_are_answered(
    s: AppView,
    channel: Seq<char>,
    name: Seq<char>,
    more: Seq<char>,
    heard: Option<IncomingView>,
    pings: Seq<Option<u128>>,
    now: u64,
)
    requires
        is_free_of(name, ' '),
        more.len() > 0 ==> more[0] == ' ',
        !names_user_command(name) && name != "newchannel"@ && name != "flushkey"@,
        types_in(s, channel, "/"@ + name + more),
    ensures
        ({
            let (after, effects, known) = s.key_step(Key::Enter, heard, pings, now);
            &&& effects.len() == 0
            &&& known == pings
            &&& name == "test"@ ==> has_answered(s, after, channel, seq!["test"@], now)
            &&& name == "help"@ ==> has_answered(
                s,
                after,
                channel,
                seq![
                    "User commands:"@ + " "@ + "/test"@ + " "@ + "/help"@ + " "@ + "/dm <user>"@,
                    "Admin commands:"@ + " "@ + "/newchannel <channel_name>"@ + " "@
                        + "/kick <user>"@ + " "@ + "/ban <user>"@ + " "@ + "/unban <user>"@ + " "@
                        + "/banip <user>"@ + " "@ + "/unbanip <user>"@,
                ],
                now,
            )
            &&& name != "test"@ && name != "help"@ ==> has_answered(
                s,
                after,
                channel,
                seq!["Unknown command: "@ + name],
                now,
            )
        }),
{
    let line = "/"@ + name + more;
    reveal_strlit("/");
    reveal_strlit("test");
    reveal_strlit("help");
    assert("test"@[0] != "help"@[0]);
    law_unsplit_text_is_one_piece(name, ' ');
    if more.len() == 0 {
        assert(line.skip(1) =~= name);
    } else {
        assert(line.skip(1) =~= name + seq![' '] + more.skip(1));
        law_pieces_on_both_sides(name, more.skip(1), ' ');
    }
    assert(split_on(line.skip(1), ' ')[0] == name);
    lemma_help();
    let after = s.key_step(Key::Enter, heard, pings, now).0;
    let old_msgs = s.current_server.msgs[channel];
    let new_msgs = after.current_server.msgs[channel];
    assert(new_msgs.take(old_msgs.len() as int) =~= old_msgs);
    assert(after.current_server.msgs =~= s.current_server.msgs.insert(channel, new_msgs));
}

/// With a message selected, `c` copies the text of a message of the selected channel with the
/// selected id: the first of them. With no message selected it does nothing. The client stays as it
/// is.
pub proof fn law_selected_message_is_copied(
    s: AppView,
    name: Seq<char>,
    heard: Option<IncomingView>,
    pings: Seq<Option<u128>>,
    now: u64,
)
    requires
        s.wf(),
        moves_in(s, name),
    ensures
        ({
            let (after, effects, known) = s.key_step(Key::Char('c'), heard, pings, now);
            let messages = s.current_server.msgs[name];
            &&& after == s
            &&& known == pings
            &&& match s.selected_msg_ids[name] {
                Some(id) => exists|i: int|
                    {
                        &&& 0 <= i < messages.len()
                        &&& (#[trigger] messages[i]).id == id
                        &&& (forall|j: int| 0 <= j < i ==> (#[trigger] messages[j]).id != id)
                        &&& effects == seq![EffectView::Copy(messages[i].msg)]
                    },
                None => effects.len() == 0,
            }
        }),
{
    let messages = s.current_server.msgs[name];
    assert(s.selected_msg_idcs.contains_key(name));
    if s.selected_msg_ids[name] is Some {
        let id = s.selected_msg_ids[name]->0;
        let place = s.selected_msg_idcs[name]->0 as int;
        assert(messages[place].id == id);
        let i = lemma_first(messages, id, place);
        lemma_found(messages, id, i);
        let effects = s.key_step(Key::Char('c'), heard, pings, now).1;
        assert(effects =~= seq![EffectView::Copy(messages[i].msg)]);
        assert(messages[i].id == id);
    }
}

/// Where the ids are different, what `c` copies is the text of the very message that is selected.
pub proof fn law_copied_text_is_that_of_the_selected_place(
    s: AppView,
    name: Seq<char>,
    place: usize,
    heard: Option<IncomingView>,
    pings: Seq<Option<u128>>,
    now: u64,
)
    requires
        s.wf(),
        moves_in(s, name),
        s.selected_msg_idcs[name] == Some(place),
        forall|i: int, j: int|
            0 <= i < j < s.current_server.msgs[name].len() ==> (
            #[trigger] s.current_server.msgs[name][i]).id != (
            #[trigger] s.current_server.msgs[name][j]).id,
    ensures
        s.key_step(Key::Char('c'), heard, pings, now).1 == seq![
            EffectView::Copy(s.current_server.msgs[name][place as int].msg),
        ],
{
    let messages = s.current_server.msgs[name];
    assert(s.selected_msg_idcs.contains_key(name));
    let id = s.selected_msg_ids[name]->0;
    assert(first_with_id(messages, id, place as int)) by {
        assert forall|j: int| 0 <= j < place implies (#[trigger] messages[j]).id != id by {
            assert(messages[j].id != messages[place as int].id);
        }
    }
    lemma_found(messages, id, place as int);
    assert(s.key_step(Key::Char('c'), heard, pings, now).1 =~= seq![
        EffectView::Copy(messages[place as int].msg),
    ]);
}

/// Where some message has the id, there is a first one.
pub proof fn lemma_first(messages: Seq<MsgView>, id: u64, w: int) -> (i: int)
    requires
        0 <= w < messages.len(),
        messages[w].id == id,
    ensures
        first_with_id(messages, id, i),
    decreases w,
{
    if exists|j: int| 0 <= j < w && (#[trigger] messages[j]).id == id {
        let j = choose|j: int| 0 <= j < w && (#[trigger] messages[j]).id == id;
        lemma_first(messages, id, j)
    } else {
        w
    }
}

/// Up selects the message before the selected one, and with none selected the last one; at the first
/// one it stays. The user moves among the messages then. Nothing else changes.
pub proof fn law_up_selects_the_message_before(
    s: AppView,
    name: Seq<char>,
    heard: Option<IncomingView>,
    pings: Seq<Option<u128>>,
    now: u64,
)
    requires
        is_in(s, name),
        0 < s.current_server.msgs[name].len() <= usize::MAX,
    ensures
        ({
            let (after, effects, known) = s.key_step(Key::Up, heard, pings, now);
            let messages = s.current_server.msgs[name];
            let place = match s.selected_msg_idcs[name] {
                Some(i) => if i == 0 {
                    0
                } else {
                    i - 1
                },
                None => messages.len() - 1,
            };
            &&& effects.len() == 0
            &&& known == pings
            &&& after == (AppView {
                selected_msg_idcs: s.selected_msg_idcs.insert(name, Some(place as usize)),
                selected_msg_ids: s.selected_msg_ids.insert(name, Some(messages[place].id)),
                selected_connected_field: ConnectedField::Channels,
                ..s
            })
        }),
{
}

/// Down selects the message behind the selected one; at the last one, or with none selected, the
/// selection stays. The user moves among the messages then. Nothing else changes.
pub proof fn law_down_selects_the_message_behind(
    s: AppView,
    name: Seq<char>,
    heard: Option<IncomingView>,
    pings: Seq<Option<u128>>,
    now: u64,
)
    requires
        is_in(s, name),
        s.current_server.msgs[name].len() <= usize::MAX,
    ensures
        ({
            let (after, effects, known) = s.key_step(Key::Down, heard, pings, now);
            let messages = s.current_server.msgs[name];
            let focused = AppView { selected_connected_field: ConnectedField::Channels, ..s };
            &&& effects.len() == 0
            &&& known == pings
            &&& match s.selected_msg_idcs[name] {
                Some(i) if i + 1 < messages.len() => after == (AppView {
                    selected_msg_idcs: s.selected_msg_idcs.insert(name, Some((i + 1) as usize)),
                    selected_msg_ids: s.selected_msg_ids.insert(name, Some(messages[i + 1].id)),
                    ..focused
                }),
                _ => after == focused,
            }
        }),
{
}

/// Page up selects the channel before the selected one and page down the one behind it, as far as
/// there is one. Nothing else changes.
pub proof fn law_pages_turn_the_channels(
    s: AppView,
    name: Seq<char>,
    heard: Option<IncomingView>,
    pings: Seq<Option<u128>>,
    now: u64,
)
    requires
        is_in(s, name),
        s.current_server.channels.len() <= usize::MAX,
    ensures
        ({
            let i = s.selected_channel->0;
            let up = s.key_step(Key::PageUp, heard, pings, now);
            let down = s.key_step(Key::PageDown, heard, pings, now);
            &&& up == (
                AppView {
                    selected_channel: Some(
                        if i == 0 {
                            0
                        } else {
                            (i - 1) as usize
                        },
                    ),
                    ..s
                },
                Seq::<EffectView>::empty(),
                pings,
            )
            &&& down == (
                AppView {
                    selected_channel: Some(
                        if i + 1 == s.current_server.channels.len() {
                            i
                        } else {
                            (i + 1) as usize
                        },
                    ),
                    ..s
                },
                Seq::<EffectView>::empty(),
                pings,
            )
        }),
{
}

/// Among the messages, `r` makes the selected message the one to reply to, `u` makes it none, `d`
/// deselects the message, and `t` shows or hides the sidebar. Nothing else changes.
pub proof fn law_keys_among_the_messages(
    s: AppView,
    name: Seq<char>,
    heard: Option<IncomingView>,
    pings: Seq<Option<u128>>,
    now: u64,
)
    requires
        moves_in(s, name),
    ensures
        s.key_step(Key::Char('r'), heard, pings, now) == (
            AppView {
                replying_to: if s.selected_msg_ids[name] is Some {
                    s.selected_msg_ids[name]
                } else {
                    s.replying_to
                },
                ..s
            },
            Seq::<EffectView>::empty(),
            pings,
        ),
        s.key_step(Key::Char('u'), heard, pings, now) == (
            AppView { replying_to: None, ..s },
            Seq::<EffectView>::empty(),
            pings,
        ),
        s.key_step(Key::Char('d'), heard, pings, now) == (
            AppView {
                selected_msg_ids: s.selected_msg_ids.insert(name, None),
                selected_msg_idcs: s.selected_msg_idcs.insert(name, None),
                ..s
            },
            Seq::<EffectView>::empty(),
            pings,
        ),
        s.key_step(Key::Char('t'), heard, pings, now) == (
            AppView { sidebar: !s.sidebar, ..s },
            Seq::<EffectView>::empty(),
            pings,
        ),
        s.key_step(Key::Tab, heard, pings, now) == (
            AppView { selected_connected_field: ConnectedField::Typing, ..s },
            Seq::<EffectView>::empty(),
            pings,
        ),
{
}

/// No other key does anything among the messages.
pub proof fn law_other_keys_among_the_messages(
    s: AppView,
    name: Seq<char>,
    key: Key,
    heard: Option<IncomingView>,
    pings: Seq<Option<u128>>,
    now: u64,
)
    requires
        moves_in(s, name),
        match key {
            Key::Char(c) => c != 't' && c != 'r' && c != 'd' && c != 'u' && c != 'o' && c != 'c',
            Key::Enter => true,
            Key::Left => true,
            Key::Right => true,
            Key::Delete => true,
            Key::Backspace => true,
            Key::Other => true,
            _ => false,
        },
    ensures
        s.key_step(key, heard, pings, now) == (s, Seq::<EffectView>::empty(), pings),
{
}

/// The message at this place has the id, and none before it has.
pub open spec fn is_first(messages: Seq<MsgView>, id: u64, i: int) -> bool {
    &&& 0 <= i < messages.len()
    &&& messages[i].id == id
    &&& forall|j: int| 0 <= j < i ==> (#[trigger] messages[j]).id != id
}

/// With `o` the last message is selected that has the id to which the selected one replies. Where
/// none is selected, it replies to none, or there is no such message, nothing changes.
pub proof fn law_original_is_selected(
    s: AppView,
    name: Seq<char>,
    i: int,
    heard: Option<IncomingView>,
    pings: Seq<Option<u128>>,
    now: u64,
)
    requires
        moves_in(s, name),
        s.current_server.msgs[name].len() <= usize::MAX,
        s.selected_msg_ids[name] is Some ==> is_first(
            s.current_server.msgs[name],
            s.selected_msg_ids[name]->0,
            i,
        ),
    ensures
        ({
            let (after, effects, known) = s.key_step(Key::Char('o'), heard, pings, now);
            let messages = s.current_server.msgs[name];
            let original = messages[i].replying_to;
            &&& effects.len() == 0
            &&& known == pings
            &&& if s.selected_msg_ids[name] is Some && original is Some && (exists|k: int|
                0 <= k < messages.len() && (#[trigger] messages[k]).id == original->0) {
                exists|k: int|
                    {
                        &&& 0 <= k < messages.len()
                        &&& (#[trigger] messages[k]).id == original->0
                        &&& (forall|j: int|
                            k < j < messages.len() ==> (#[trigger] messages[j]).id != original->0)
                        &&& after == (AppView {
                            selected_msg_idcs: s.selected_msg_idcs.insert(name, Some(k as usize)),
                            selected_msg_ids: s.selected_msg_ids.insert(name, original),
                            ..s
                        })
                    }
            } else {
                after == s
            }
        }),
{
    let messages = s.current_server.msgs[name];
    if s.selected_msg_ids[name] is Some {
        lemma_found(messages, s.selected_msg_ids[name]->0, i);
        let original = messages[i].replying_to;
        if original is Some && has_id(messages, original->0) {
            crate::laws::lemma_last_place(messages, original->0);
            let k = crate::connected::last_place(messages, original->0) as int;
            assert(messages[k].id == original->0);
        }
    }
}

/// Escape among the messages leaves the server: the connection is closed with the name of the
/// selected channel as the reason and not read any more, and the list of servers is shown, with
/// empty lines for the next login. Nothing else changes.
pub proof fn law_escape_leaves_the_server(
    s: AppView,
    name: Seq<char>,
    heard: Option<IncomingView>,
    pings: Seq<Option<u128>>,
    now: u64,
)
    requires
        moves_in(s, name),
    ensures
        ({
            let (after, effects, known) = s.key_step(Key::Esc, heard, pings, now);
            &&& effects == seq![EffectView::Close(name), EffectView::AbortReader]
            &&& known == pings
            &&& after.login.username.buf.len() == 0
            &&& after.login.username.cursor_pos == 0
            &&& after.login.password.buf.len() == 0
            &&& after.login.password.cursor_pos == 0
            &&& after == (AppView {
                screen: Screen::Selection,
                connect_state: ConnectState::NotConnected,
                socket: false,
                reader: false,
                selected_login_field: LoginField::Username,
                login: after.login,
                ..s
            })
        }),
{
}

/// A key that edits edits the line of the selected channel, and nothing else changes. Escape ends
/// the typing, and Tab does nothing then.
pub proof fn law_typing_edits_the_line_of_the_channel(
    s: AppView,
    name: Seq<char>,
    text: Seq<char>,
    key: Key,
    heard: Option<IncomingView>,
    pings: Seq<Option<u128>>,
    now: u64,
)
    requires
        types_in(s, name, text),
        key is Char || key == Key::Backspace || key == Key::Delete || key == Key::Left || key
            == Key::Right,
    ensures
        s.key_step(key, heard, pings, now) == (
            AppView {
                new_message_bufs: s.new_message_bufs.insert(
                    name,
                    s.new_message_bufs[name].press(key),
                ),
                ..s
            },
            Seq::<EffectView>::empty(),
            pings,
        ),
        s.key_step(Key::Esc, heard, pings, now) == (
            AppView { selected_connected_field: ConnectedField::Channels, ..s },
            Seq::<EffectView>::empty(),
            pings,
        ),
        s.key_step(Key::Tab, heard, pings, now) == (s, Seq::<EffectView>::empty(), pings),
        s.key_step(Key::Other, heard, pings, now) == (s, Seq::<EffectView>::empty(), pings),
{
}

} // verus!
