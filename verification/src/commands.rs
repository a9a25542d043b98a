//! The commands that a user types in a channel.
//!
//! A command is a line that starts with a slash. It is cut at its blanks: `/command arg1 arg2`
//! becomes `command`, `arg1` and `arg2`, and the first of them says which command it is.

use vstd::prelude::*;
use vstd::string::*;

use crate::effect::{all_compact, effects_view, no_effects, Delivery, Effect, EffectView};
use crate::json::{
    exact_members, lemma_members_push, lemma_view_parts, members_view, Json, JsonView,
};
use crate::msg::{command_view, Msg};
use crate::state::{App, AppView};
use crate::text::{same_text, texts};
use crate::words::{join, join_with};

verus! {

/// The commands that every user has.
pub open spec fn user_commands() -> Seq<Seq<char>> {
    seq!["User commands:"@, "/test"@, "/help"@, "/dm <user>"@]
}

/// The commands that only some users have.
pub open spec fn admin_commands() -> Seq<Seq<char>> {
    seq![
        "Admin commands:"@,
        "/newchannel <channel_name>"@,
        "/kick <user>"@,
        "/ban <user>"@,
        "/unban <user>"@,
        "/banip <user>"@,
        "/unbanip <user>"@,
    ]
}

/// A command that is about a user.
pub open spec fn is_user_action(name: Seq<char>) -> bool {
    name == "kick"@ || name == "ban"@ || name == "banip"@ || name == "unban"@ || name
        == "unbanip"@ || name == "dm"@
}

/// A command that asks the server for something.
pub open spec fn is_request(name: Seq<char>) -> bool {
    is_user_action(name) || name == "newchannel"@
}

/// What the server is asked to do about a user or a channel.
pub open spec fn command_members(
    action: Seq<char>,
    about: Seq<char>,
    whom: Seq<char>,
    session: Seq<char>,
) -> Map<Seq<char>, JsonView> {
    map!["action"@ => JsonView::Text(action)].insert(about, JsonView::Text(whom)).insert(
        "session"@,
        JsonView::Text(session),
    )
}

impl AppView {
    /// What is asked of the server: nothing where the argument is missing.
    pub open spec fn asked(self, about: Seq<char>, args: Seq<Seq<char>>) -> Seq<EffectView> {
        if args.len() < 2 {
            seq![]
        } else {
            seq![
                EffectView::Send(
                    Some(JsonView::Dict(command_members(args[0], about, args[1], self.session))),
                    Delivery::Required,
                ),
            ]
        }
    }

    /// The client answers the user in the selected channel.
    pub open spec fn answered(self, text: Seq<char>, now: u64) -> AppView {
        self.add_msg(command_view(text, now))
    }

    /// What a command does.
    pub open spec fn command(self, args: Seq<Seq<char>>, now: u64) -> (AppView, Seq<EffectView>) {
        if is_user_action(args[0]) {
            (self, self.asked("user"@, args))
        } else if args[0] == "newchannel"@ {
            (self, self.asked("channelname"@, args))
        } else if args[0] == "flushkey"@ {
            (self, seq![])
        } else if args[0] == "test"@ {
            (self.answered("test"@, now), seq![])
        } else if args[0] == "help"@ {
            (
                self.answered(join_with(user_commands(), " "@), now).answered(
                    join_with(admin_commands(), " "@),
                    now,
                ),
                seq![],
            )
        } else {
            (self.answered("Unknown command: "@ + args[0], now), seq![])
        }
    }

    /// A message can be added to the selected channel.
    pub open spec fn can_answer(self) -> bool {
        self.selected_channel is Some ==> self.has_channel()
            && self.current_server.msgs.contains_key(self.channel())
    }
}

fn user_commands_text() -> (r: String)
    ensures
        r@ == join_with(user_commands(), " "@),
{
    let list: Vec<String> = vec![
        "User commands:".to_owned(),
        "/test".to_owned(),
        "/help".to_owned(),
        "/dm <user>".to_owned(),
    ];
    assert(list@.map_values(|p: String| p@) =~= user_commands());
    join(&list, " ")
}

fn admin_commands_text() -> (r: String)
    ensures
        r@ == join_with(admin_commands(), " "@),
{
    let list: Vec<String> = vec![
        "Admin commands:".to_owned(),
        "/newchannel <channel_name>".to_owned(),
        "/kick <user>".to_owned(),
        "/ban <user>".to_owned(),
        "/unban <user>".to_owned(),
        "/banip <user>".to_owned(),
        "/unbanip <user>".to_owned(),
    ];
    assert(list@.map_values(|p: String| p@) =~= admin_commands());
    join(&list, " ")
}

fn new_msg(msg: &str, app: &mut App, now: u64)
    requires
        old(app)@.can_answer(),
    ensures
        final(app)@ == old(app)@.answered(msg@, now),
        old(app)@.wf() ==> final(app)@.wf(),
        final(app)@.can_answer(),
{
    app.add_msg_to_current_channel(Msg::command_msg(msg, now));
}

/// What the server is asked to do about a user or a channel.
pub fn command_json(action: &str, about: &str, whom: &str, session: &str) -> (r: Json)
    ensures
        r@ == JsonView::Dict(command_members(action@, about@, whom@, session@)),
        exact_members(command_members(action@, about@, whom@, session@)),
{
    let mut members: Vec<(String, Json)> = Vec::new();
    let action_member = ("action".to_owned(), Json::Text(action.to_owned()));
    let whom_member = (about.to_owned(), Json::Text(whom.to_owned()));
    let session_member = ("session".to_owned(), Json::Text(session.to_owned()));
    proof {
        lemma_members_push(members@, action_member.0, action_member.1);
        lemma_members_push(members@.push(action_member), whom_member.0, whom_member.1);
        lemma_members_push(
            members@.push(action_member).push(whom_member),
            session_member.0,
            session_member.1,
        );
        assert(members_view(members@) =~= Map::<Seq<char>, JsonView>::empty());
    }
    members.push(action_member);
    members.push(whom_member);
    members.push(session_member);
    let ghost said = command_members(action@, about@, whom@, session@);
    assert(members_view(members@) =~= said);
    let value = Json::Dict(members);
    proof {
        lemma_view_parts(value);
        assert(exact_members(said));
    }
    value
}

fn ask(about: &str, args: &Vec<String>, app: &App) -> (r: Vec<Effect>)
    requires
        args@.len() >= 2 ==> app@.socket,
        args@.len() > 0,
    ensures
        all_compact(r@),
        effects_view(r@) == app@.asked(about@, texts(args@)),
{
    if args.len() < 2 {
        return no_effects();
    }
    let value = command_json(args[0].as_str(), about, args[1].as_str(), app.session.as_str());
    app.send_json(&value)
}

/// Does what a command says. What is sent needs a connection, and what is answered a channel.
pub fn handle(args: &Vec<String>, app: &mut App, now: u64) -> (r: Vec<Effect>)
    requires
        args@.len() > 0,
        args@.len() >= 2 && is_request(args@[0]@) ==> old(app)@.socket,
        !is_request(args@[0]@) && args@[0]@ != "flushkey"@ ==> old(app)@.can_answer(),
    ensures
        final(app)@ == old(app)@.command(texts(args@), now).0,
        all_compact(r@),
        effects_view(r@) == old(app)@.command(texts(args@), now).1,
        old(app)@.wf() ==> final(app)@.wf(),
{
    let name = args[0].as_str();
    assert(texts(args@)[0] == name@);
    if same_text(name, "kick") || same_text(name, "ban") || same_text(name, "banip") || same_text(
        name,
        "unban",
    ) || same_text(name, "unbanip") || same_text(name, "dm") {
        ask("user", args, app)
    } else if same_text(name, "newchannel") {
        ask("channelname", args, app)
    } else if same_text(name, "flushkey") {
        // Meant for a key of the channel that has to be asked for again.
        no_effects()
    } else if same_text(name, "test") {
        new_msg("test", app, now);
        no_effects()
    } else if same_text(name, "help") {
        new_msg(user_commands_text().as_str(), app, now);
        new_msg(admin_commands_text().as_str(), app, now);
        no_effects()
    } else {
        let mut text = "Unknown command: ".to_owned();
        text.append(name);
        new_msg(text.as_str(), app, now);
        no_effects()
    }
}

} // verus!
