//! What holds of the views by which the contracts speak of values.

use vstd::prelude::*;
use vstd::string::*;

use crate::clock::time_reads;
use crate::effect::{effects_view, Effect, EffectView};
use crate::input::InputBuffer;
use crate::json::parsed_json;
use crate::layout::Rect;
use crate::message_view::{msg_lines, msg_shown};
use crate::msg::{msgs_view, Msg, MsgView};
use crate::panel::{panels_view, shown_view, Panel, PanelView};
use crate::render::notice_shown;
use crate::state::{error_view, hosts, App, AppView, Config, CurrentServer, Server};
use crate::style::{LineView, Span, TextLine};
use crate::text::texts;
use crate::wire::{message_view, Incoming, IncomingView};

verus! {

/// The view of a piece of text, of a line and of a panel has all that they have.
pub proof fn law_panels_are_seen_as_they_are(s: Span, l: TextLine, p: Panel, panels: Vec<Panel>)
    ensures
        s@.text == s.text@ && s@.style == s.style,
        l@.marked == l.marked && l@.align == l.align && l@.spans.len() == l.spans@.len(),
        forall|i: int| 0 <= i < l.spans@.len() ==> #[trigger] l@.spans[i] == l.spans@[i]@,
        p@.area == p.area && p@.bordered == p.bordered && p@.scroll == p.scroll,
        p@.title is Some <==> p.title is Some,
        p.title is Some ==> p@.title->0 == p.title->0@,
        p@.bottom is Some <==> p.bottom is Some,
        p.bottom is Some ==> p@.bottom->0 == p.bottom->0@,
        p@.lines.len() == p.lines@.len(),
        forall|i: int| 0 <= i < p.lines@.len() ==> #[trigger] p@.lines[i] == p.lines@[i]@,
        panels_view(panels@).len() == panels@.len(),
        forall|i: int|
            0 <= i < panels@.len() ==> #[trigger] panels_view(panels@)[i] == panels@[i]@,
        shown_view(Some(panels)) == Some(panels_view(panels@)),
        shown_view(None) is None,
{
}

/// The view of what is asked for has all of it, in its order. Of a text that is sent it is what it
/// reads as.
pub proof fn law_effects_are_seen_as_they_are(e: Effect, effects: Seq<Effect>)
    ensures
        effects_view(effects).len() == effects.len(),
        forall|i: int| 0 <= i < effects.len() ==> #[trigger] effects_view(effects)[i] == effects[i]@,
        match e {
            Effect::Status(text) => e@ == EffectView::Status(text@),
            Effect::Notice(text) => e@ == EffectView::Notice(text@),
            Effect::Connect(url) => e@ == EffectView::Connect(url@),
            Effect::Send(text, how) => e@ == EffectView::Send(parsed_json(text@), how),
            Effect::Pong(bytes) => e@ == EffectView::Pong(bytes@),
            Effect::Close(reason) => e@ == EffectView::Close(reason@),
            Effect::AbortReader => e@ == EffectView::AbortReader,
            Effect::Copy(text) => e@ == EffectView::Copy(text@),
        },
{
}

/// The view of what arrives has all of it.
pub proof fn law_arrivals_are_seen_as_they_are(m: Incoming, outcome: Result<(), String>)
    ensures
        message_view(Some(m)) == Some(m@),
        message_view(None) is None,
        match m {
            Incoming::Text(text) => m@ == IncomingView::Text(text@),
            Incoming::Close => m@ == IncomingView::Close,
            Incoming::Ping(bytes) => m@ == IncomingView::Ping(bytes@),
            Incoming::Other => m@ == IncomingView::Other,
            Incoming::ConnectionClosed(text) => m@ == IncomingView::ConnectionClosed(text@),
            Incoming::Failed => m@ == IncomingView::Failed,
        },
        match outcome {
            Ok(_) => error_view(outcome) is None,
            Err(e) => error_view(outcome) == Some(e@),
        },
{
}

/// The view of a message, of a line and of lists of texts and messages has all that they have.
pub proof fn law_texts_are_seen_as_they_are(
    m: Msg,
    line: InputBuffer,
    list: Seq<String>,
    msgs: Seq<Msg>,
    servers: Seq<Server>,
)
    ensures
        m@ == (MsgView {
            msg: m.msg@,
            id: m.id,
            user: m.user@,
            time: m.time,
            replying_to: m.replying_to,
            _type: m._type,
        }),
        line@.buf == line.buf@,
        line@.bufsize == line.bufsize,
        line@.cursor_pos == line.cursor_pos,
        line@.scroll_offset == line.scroll_offset,
        texts(list).len() == list.len(),
        forall|i: int| 0 <= i < list.len() ==> #[trigger] texts(list)[i] == list[i]@,
        msgs_view(msgs).len() == msgs.len(),
        forall|i: int| 0 <= i < msgs.len() ==> #[trigger] msgs_view(msgs)[i] == msgs[i]@,
        hosts(servers).len() == servers.len(),
        forall|i: int|
            0 <= i < servers.len() ==> #[trigger] hosts(servers)[i] == servers[i].hostname@,
{
}

/// The view of the client has all that the client has.
pub proof fn law_client_is_seen_as_it_is(app: App, config: Config, server: CurrentServer)
    ensures
        app@.screen == app.screen,
        app@.connect_state == app.connect_state,
        app@.servers == hosts(app.servers@),
        app@.config == app.config@,
        app@.chars_matrix.len() == app.chars_matrix@.len(),
        forall|i: int|
            0 <= i < app.chars_matrix@.len() ==> #[trigger] app@.chars_matrix[i]
                == app.chars_matrix@[i]@,
        app@.selected_server == app.selected_server,
        app@.server_selection_scroll_size == app.server_selection_scroll_size,
        app@.scroll_offset == app.scroll_offset,
        app@.editing_server == app.editing_server@,
        app@.editing_existing_index == app.editing_existing_index,
        app@.exit == app.exit,
        app@.status_text == app.status_text@,
        app@.next_fn == app.next_fn,
        app@.socket == app.socket,
        app@.reader == app.reader,
        app@.selected_login_field == app.selected_login_field,
        app@.login.username == app.login.username@,
        app@.login.password == app.login.password@,
        app@.session == app.session@,
        app@.current_user == app.current_user@,
        app@.selected_connected_field == app.selected_connected_field,
        app@.replying_to == app.replying_to,
        app@.current_server == app.current_server@,
        app@.private == app.private@,
        app@.public == app.public@,
        app@.new_message_bufs.dom() == app.new_message_bufs@.dom(),
        forall|name: Seq<char>| #[trigger]
            app.new_message_bufs@.contains_key(name) ==> app@.new_message_bufs[name]
                == app.new_message_bufs@[name]@,
        app@.sidebar == app.sidebar,
        app@.selected_channel == app.selected_channel,
        app@.selected_msg_ids == app.selected_msg_ids@,
        app@.selected_msg_idcs == app.selected_msg_idcs@,
        config@.servers == texts(config.servers@),
        config@.random_local_addr == config.random_local_addr,
        config@.matrix_background == config.matrix_background,
        config@.ping_timeout == config.ping_timeout,
        config@.trust_self_signed_certs == config.trust_self_signed_certs,
        server@.hostname == server.hostname@,
        server@.channels == texts(server.channels@),
        server@.connected_users == texts(server.connected_users@),
        server@.msgs.dom() == server.msgs@.dom(),
        forall|name: Seq<char>| #[trigger]
            server.msgs@.contains_key(name) ==> server@.msgs[name] == msgs_view(
                server.msgs@[name]@,
            ),
{
    assert(app@.new_message_bufs.dom() =~= app.new_message_bufs@.dom());
    assert(server@.msgs.dom() =~= server.msgs@.dom());
}

/// The lines of a message that is shown are those with its time in some time zone.
pub proof fn law_shown_message_has_its_time(
    lines: Seq<LineView>,
    m: MsgView,
    channel: Seq<MsgView>,
    width: u16,
    selected: Option<u64>,
)
    requires
        msg_shown(lines, m, channel, width, selected),
    ensures
        exists|stamp: Seq<char>| #[trigger]
            time_reads(m.time, stamp) && lines == msg_lines(m, channel, width, selected, stamp),
{
}

/// A text that is shown while the client goes on is in front of the bits.
pub proof fn law_passing_notice_is_in_front(
    s: AppView,
    text: Seq<char>,
    done: bool,
    area: Rect,
    after: AppView,
    shown: Seq<PanelView>,
)
    requires
        s.notice_rendered(text, done, area, after, Some(shown)),
    ensures
        exists|back: Seq<PanelView>, front: Seq<PanelView>|
            {
                &&& #[trigger] s.behind(area, after, back)
                &&& #[trigger] notice_shown(text, done, area, Some(front))
                &&& shown == back + front
            },
{
    let (back, front) = choose|back: Seq<PanelView>, front: Option<Seq<PanelView>>|
        #![trigger s.behind(area, after, back), notice_shown(text, done, area, front)]
        {
            &&& s.behind(area, after, back)
            &&& notice_shown(text, done, area, front)
            &&& Some(shown) == crate::render::stacked(back, front)
        };
    assert(front == Some(front->0));
    assert(s.behind(area, after, back) && notice_shown(text, done, area, Some(front->0)));
}

} // verus!
