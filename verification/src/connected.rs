//! The keys of the screen that shows the channels of a server.

use vstd::prelude::*;
use vstd::string::*;

use crate::commands::handle;
use crate::effect::{
    all_compact, effects_view, no_effects, one_effect, Delivery, Effect, EffectView,
};
use crate::input::{InputView, Key};
use crate::json::{
    exact_members, flat_text, lemma_members_push, members_view, payload, Json, JsonView,
};
use crate::message_view::{find_msg, found, has_id};
use crate::msg::{msgs_view, pack_msg, packed_members, Msg, MsgType, MsgView};
use crate::state::{lemma_bufs, request, session_members, App, AppView, ConnectedField, Screen};
use crate::words::{split, split_on};

verus! {

/// `i` is the last message with the id.
pub open spec fn last_with_id(channel: Seq<MsgView>, id: u64, i: int) -> bool {
    &&& 0 <= i < channel.len()
    &&& channel[i].id == id
    &&& forall|j: int| i < j < channel.len() ==> (#[trigger] channel[j]).id != id
}

/// The place of the last message with the id.
pub open spec fn last_place(channel: Seq<MsgView>, id: u64) -> usize {
    (choose|i: int| last_with_id(channel, id, i)) as usize
}

/// What the client says of a message that it wants delivered.
pub open spec fn chat_members(
    session: Seq<char>,
    msg: MsgView,
    channel: Seq<char>,
) -> Map<Seq<char>, JsonView> {
    session_members(session).insert(
        "msg"@,
        JsonView::Text(flat_text(packed_members(msg))),
    ).insert("channel"@, JsonView::Text(channel))
}

impl AppView {
    /// The messages of the selected channel.
    pub open spec fn messages(self) -> Seq<MsgView> {
        self.current_server.msgs[self.channel()]
    }

    /// The input line of the selected channel.
    pub open spec fn line(self) -> InputView {
        self.new_message_bufs[self.channel()]
    }

    pub open spec fn with_line(self, line: InputView) -> AppView {
        AppView { new_message_bufs: self.new_message_bufs.insert(self.channel(), line), ..self }
    }

    /// The id of the selected message.
    pub open spec fn selected_id(self) -> Option<u64> {
        self.selected_msg_ids[self.channel()]
    }

    /// The place of the selected message.
    pub open spec fn selected_place(self) -> Option<usize> {
        self.selected_msg_idcs[self.channel()]
    }

    /// The message at a place is selected.
    pub open spec fn select(self, i: usize) -> AppView {
        AppView {
            selected_msg_idcs: self.selected_msg_idcs.insert(self.channel(), Some(i)),
            selected_msg_ids: self.selected_msg_ids.insert(
                self.channel(),
                Some(self.messages()[i as int].id),
            ),
            ..self
        }
    }

    /// No message is selected.
    pub open spec fn deselect(self) -> AppView {
        AppView {
            selected_msg_idcs: self.selected_msg_idcs.insert(self.channel(), None),
            selected_msg_ids: self.selected_msg_ids.insert(self.channel(), None),
            ..self
        }
    }

    pub open spec fn focus(self, field: ConnectedField) -> AppView {
        AppView { selected_connected_field: field, ..self }
    }

    /// The message before the selected one is selected; where none is, the last one.
    pub open spec fn prev_msg(self) -> AppView {
        let i = match self.selected_place() {
            Some(i) => if i > 0 {
                (i - 1) as usize
            } else {
                0
            },
            None => (self.messages().len() - 1) as usize,
        };
        self.select(i).focus(ConnectedField::Channels)
    }

    /// The message behind the selected one is selected, if there is one.
    pub open spec fn next_msg(self) -> AppView {
        let after = match self.selected_place() {
            Some(i) => if i + 1 < self.messages().len() {
                self.select((i + 1) as usize)
            } else {
                self
            },
            None => self,
        };
        after.focus(ConnectedField::Channels)
    }

    pub open spec fn page_up(self) -> AppView {
        match self.selected_channel {
            Some(i) => if i > 0 {
                AppView { selected_channel: Some((i - 1) as usize), ..self }
            } else {
                self
            },
            None => self,
        }
    }

    pub open spec fn page_down(self) -> AppView {
        match self.selected_channel {
            Some(i) => if i + 1 < self.current_server.channels.len() {
                AppView { selected_channel: Some((i + 1) as usize), ..self }
            } else {
                self
            },
            None => self,
        }
    }

    /// The message that the input line holds.
    pub open spec fn draft(self, now: u64) -> MsgView {
        self.draft_of(self.line().buf, now)
    }

    /// The message with a text of the user.
    pub open spec fn draft_of(self, text: Seq<char>, now: u64) -> MsgView {
        MsgView {
            msg: text,
            id: 0,
            user: self.current_user,
            time: now,
            replying_to: self.replying_to,
            _type: MsgType::Text,
        }
    }

    /// The line is taken as a command or sent as a message, and emptied. An empty line stays.
    pub open spec fn submit(self, now: u64) -> (AppView, Seq<EffectView>) {
        let text = self.line().buf;
        let empty = InputView::empty(self.line().bufsize);
        if text.len() == 0 {
            (self, seq![])
        } else if text[0] == '/' {
            let (after, effects) = self.command(split_on(text.skip(1), ' '), now);
            (after.with_line(empty), effects)
        } else {
            let said = chat_members(self.session, self.draft(now), self.channel());
            (
                AppView { replying_to: None, ..self.with_line(empty) },
                seq![EffectView::Send(request("message"@, said), Delivery::Chat)],
            )
        }
    }

    /// The selected message is the one to reply to.
    pub open spec fn reply(self) -> AppView {
        match self.selected_id() {
            Some(id) => AppView { replying_to: Some(id), ..self },
            None => self,
        }
    }

    /// The message that the selected one replies to is selected, if it is there.
    pub open spec fn go_to_original(self) -> AppView {
        match self.selected_id() {
            Some(id) => match found(self.messages(), id).replying_to {
                Some(original) => if has_id(self.messages(), original) {
                    self.select(last_place(self.messages(), original))
                } else {
                    self
                },
                None => self,
            },
            None => self,
        }
    }

    /// The text of the selected message is copied.
    pub open spec fn copied(self) -> Seq<EffectView> {
        match self.selected_id() {
            Some(id) => seq![EffectView::Copy(found(self.messages(), id).msg)],
            None => seq![],
        }
    }

    /// A key does something here. There has to be a channel, a message to select, and a whole
    /// character at the cursor for a key that needs it.
    pub open spec fn connected_ready(self, key: Key) -> bool {
        &&& self.has_channel()
        &&& key == Key::Up && self.selected_place() is None ==> self.messages().len() > 0
        &&& self.selected_connected_field == ConnectedField::Typing ==> self.line().can_press(key)
    }

    /// What a key does while the user types.
    pub open spec fn typing_key(self, key: Key, now: u64) -> (AppView, Seq<EffectView>) {
        match key {
            Key::Esc => (self.focus(ConnectedField::Channels), seq![]),
            Key::PageUp => (self.page_up(), seq![]),
            Key::PageDown => (self.page_down(), seq![]),
            Key::Enter => self.submit(now),
            Key::Up => (self.prev_msg(), seq![]),
            Key::Down => (self.next_msg(), seq![]),
            Key::Tab => (self, seq![]),
            Key::Other => (self, seq![]),
            _ => (self.with_line(self.line().press(key)), seq![]),
        }
    }

    /// What a key does while the user moves among the messages.
    pub open spec fn channels_key(self, key: Key) -> (AppView, Seq<EffectView>) {
        match key {
            Key::Up => (self.prev_msg(), seq![]),
            Key::Down => (self.next_msg(), seq![]),
            Key::Esc => (self.disconnect(), self.closing()),
            Key::Tab => (self.focus(ConnectedField::Typing), seq![]),
            Key::PageUp => (self.page_up(), seq![]),
            Key::PageDown => (self.page_down(), seq![]),
            Key::Char(c) => if c == 't' {
                (AppView { sidebar: !self.sidebar, ..self }, seq![])
            } else if c == 'r' {
                (self.reply(), seq![])
            } else if c == 'd' {
                (self.deselect(), seq![])
            } else if c == 'u' {
                (AppView { replying_to: None, ..self }, seq![])
            } else if c == 'o' {
                (self.go_to_original(), seq![])
            } else if c == 'c' {
                (self, self.copied())
            } else {
                (self, seq![])
            },
            _ => (self, seq![]),
        }
    }

    /// What a key does on the screen that shows the channels.
    pub open spec fn connected_key(self, key: Key, now: u64) -> (AppView, Seq<EffectView>) {
        match self.selected_connected_field {
            ConnectedField::Typing => self.typing_key(key, now),
            ConnectedField::Channels => self.channels_key(key),
        }
    }
}

/// The place of the last message with the id, if there is one.
fn find_last(channel: &Vec<Msg>, id: u64) -> (r: Option<usize>)
    ensures
        match r {
            Some(i) => {
                &&& has_id(msgs_view(channel@), id)
                &&& i == last_place(msgs_view(channel@), id)
                &&& i < channel@.len()
                &&& channel@[i as int].id == id
            },
            None => !has_id(msgs_view(channel@), id),
        },
{
    let ghost all = msgs_view(channel@);
    let mut i: usize = channel.len();
    while i > 0
        invariant
            i <= channel@.len(),
            all == msgs_view(channel@),
            forall|j: int| i <= j < channel@.len() ==> (#[trigger] channel@[j]).id != id,
        decreases i,
    {
        i -= 1;
        if channel[i].id == id {
            proof {
                assert(all[i as int].id == id);
                assert forall|j: int| i < j < all.len() implies (#[trigger] all[j]).id != id by {
                    assert(channel@[j].id != id);
                }
                assert(last_with_id(all, id, i as int));
                let k = choose|k: int| last_with_id(all, id, k);
                if k < i {
                    assert(all[i as int].id != id);
                } else if i < k {
                    assert(all[k].id != id);
                }
            }
            return Some(i);
        }
    }
    assert forall|j: int| 0 <= j < all.len() implies (#[trigger] all[j]).id != id by {
        assert(channel@[j].id != id);
    }
    None
}

impl App {
    /// The name of the selected channel.
    pub(crate) fn channel_name(&self) -> (r: String)
        requires
            self@.has_channel(),
        ensures
            r@ == self@.channel(),
    {
        match self.selected_channel {
            Some(i) => self.current_server.channels[i].clone(),
            None => String::new(),
        }
    }

    /// Selects the message at a place.
    fn select_msg(&mut self, name: &str, i: usize)
        requires
            old(self)@.wf(),
            old(self)@.screen == Screen::Connected,
            old(self)@.has_channel(),
            name@ == old(self)@.channel(),
            i < old(self)@.messages().len(),
        ensures
            final(self)@ == old(self)@.select(i),
            final(self)@.wf(),
    {
        if let Some(list) = self.current_server.msgs.get(name) {
            let id = list[i].id;
            self.selected_msg_idcs.insert(name, Some(i));
            self.selected_msg_ids.insert(name, Some(id));
        }
    }

    /// Selects the message before the selected one; where none is selected, the last one.
    fn prev_msg(&mut self, name: &str)
        requires
            old(self)@.wf(),
            old(self)@.screen == Screen::Connected,
            old(self)@.has_channel(),
            name@ == old(self)@.channel(),
            old(self)@.selected_place() is None ==> old(self)@.messages().len() > 0,
        ensures
            final(self)@ == old(self)@.prev_msg(),
            final(self)@.wf(),
    {
        let count: usize = match self.current_server.msgs.get(name) {
            Some(list) => list.len(),
            None => 0,
        };
        let place: Option<usize> = match self.selected_msg_idcs.get(name) {
            Some(place) => *place,
            None => None,
        };
        let i: usize = match place {
            Some(i) => if i > 0 {
                i - 1
            } else {
                0
            },
            None => count - 1,
        };
        self.select_msg(name, i);
        self.selected_connected_field = ConnectedField::Channels;
    }

    /// Selects the message behind the selected one, if there is one.
    fn next_msg(&mut self, name: &str)
        requires
            old(self)@.wf(),
            old(self)@.screen == Screen::Connected,
            old(self)@.has_channel(),
            name@ == old(self)@.channel(),
        ensures
            final(self)@ == old(self)@.next_msg(),
            final(self)@.wf(),
    {
        let count: usize = match self.current_server.msgs.get(name) {
            Some(list) => list.len(),
            None => 0,
        };
        let place: Option<usize> = match self.selected_msg_idcs.get(name) {
            Some(place) => *place,
            None => None,
        };
        if let Some(i) = place {
            if i + 1 < count {
                self.select_msg(name, i + 1);
            }
        }
        self.selected_connected_field = ConnectedField::Channels;
    }

    fn page_up(&mut self)
        ensures
            final(self)@ == old(self)@.page_up(),
            old(self)@.wf() ==> final(self)@.wf(),
    {
        if let Some(i) = self.selected_channel {
            if i > 0 {
                self.selected_channel = Some(i - 1);
            }
        }
    }

    fn page_down(&mut self)
        ensures
            final(self)@ == old(self)@.page_down(),
            old(self)@.wf() ==> final(self)@.wf(),
    {
        if let Some(i) = self.selected_channel {
            let length = self.current_server.channels.len();
            if length > 0 && i < length - 1 {
                self.selected_channel = Some(i + 1);
            }
        }
    }

    /// Empties the input line of a channel.
    fn clear_line(&mut self, name: &str)
        requires
            old(self)@.wf(),
            old(self)@.screen == Screen::Connected,
            old(self)@.has_channel(),
            name@ == old(self)@.channel(),
        ensures
            final(self)@ == old(self)@.with_line(InputView::empty(old(self)@.line().bufsize)),
            final(self)@.wf(),
    {
        let ghost before = self.new_message_bufs;
        if let Some(buf) = self.new_message_bufs.get_mut(name) {
            buf.clear();
        }
        proof {
            lemma_bufs(before, self.new_message_bufs, name@, self.new_message_bufs@[name@]);
        }
    }

    /// Lets a key edit the input line of the selected channel.
    fn edit_line(&mut self, name: &str, key: Key)
        requires
            old(self)@.wf(),
            old(self)@.screen == Screen::Connected,
            old(self)@.has_channel(),
            name@ == old(self)@.channel(),
            old(self)@.line().can_press(key),
        ensures
            final(self)@ == old(self)@.with_line(old(self)@.line().press(key)),
            final(self)@.wf(),
    {
        let ghost before = self.new_message_bufs;
        assert(self@.line().wf());
        if let Some(buf) = self.new_message_bufs.get_mut(name) {
            buf.press(key);
        }
        proof {
            lemma_bufs(before, self.new_message_bufs, name@, self.new_message_bufs@[name@]);
        }
    }

    /// What the client says of a text that it wants delivered.
    pub fn chat_data(&self, name: &str, text: String, now: u64) -> (r: Vec<(String, Json)>)
        ensures
            members_view(r@) == chat_members(self@.session, self@.draft_of(text@, now), name@),
            exact_members(members_view(r@)),
    {
        let sending = Msg {
            user: self.current_user.clone(),
            msg: text,
            id: 0,
            time: now,
            replying_to: self.replying_to,
            _type: MsgType::Text,
        };
        let mut data = self.session_template();
        let msg = ("msg".to_owned(), Json::Text(pack_msg(&sending)));
        let channel = ("channel".to_owned(), Json::Text(name.to_owned()));
        proof {
            lemma_members_push(data@, msg.0, msg.1);
            lemma_members_push(data@.push(msg), channel.0, channel.1);
            assert(sending@ == self@.draft_of(text@, now));
        }
        data.push(msg);
        data.push(channel);
        data
    }

    /// Sends the input line as a message.
    fn send_line(&mut self, name: &str, text: String, now: u64) -> (r: Vec<Effect>)
        requires
            old(self)@.wf(),
            old(self)@.screen == Screen::Connected,
            old(self)@.has_channel(),
            name@ == old(self)@.channel(),
            text@ == old(self)@.line().buf,
        ensures
            final(self)@ == (AppView { replying_to: None, ..old(self)@ }),
            final(self)@.wf(),
            all_compact(r@),
            effects_view(r@) == seq![
                EffectView::Send(
                    request(
                        "message"@,
                        chat_members(old(self)@.session, old(self)@.draft(now), name@),
                    ),
                    Delivery::Chat,
                ),
            ],
    {
        let data = self.chat_data(name, text, now);
        self.replying_to = None;
        one_effect(Effect::Send(payload("message", data), Delivery::Chat))
    }

    /// Takes the input line as a command or sends it.
    fn submit_line(&mut self, name: &str, now: u64) -> (r: Vec<Effect>)
        requires
            old(self)@.wf(),
            old(self)@.screen == Screen::Connected,
            old(self)@.has_channel(),
            name@ == old(self)@.channel(),
        ensures
            final(self)@ == old(self)@.submit(now).0,
            final(self)@.wf(),
            all_compact(r@),
            effects_view(r@) == old(self)@.submit(now).1,
    {
        let text = match self.new_message_bufs.get(name) {
            Some(buf) => buf.buf.clone(),
            None => String::new(),
        };
        assert(text@ == self@.line().buf);
        let length = text.as_str().unicode_len();
        if length == 0 {
            return no_effects();
        }
        if text.as_str().get_char(0) == '/' {
            let rest = text.as_str().substring_char(1, length);
            let args = split(rest, ' ');
            assert(rest@ =~= text@.skip(1));
            let effects = handle(&args, self, now);
            self.clear_line(name);
            effects
        } else {
            let effects = self.send_line(name, text, now);
            self.clear_line(name);
            effects
        }
    }

    /// The id of the selected message of a channel.
    pub(crate) fn selected_msg(&self, name: &str) -> (r: Option<u64>)
        requires
            self@.wf(),
            self@.screen == Screen::Connected,
            self@.has_channel(),
            name@ == self@.channel(),
        ensures
            r == self@.selected_id(),
            r is Some ==> has_id(self@.messages(), r->0),
    {
        let id: Option<u64> = match self.selected_msg_ids.get(name) {
            Some(id) => *id,
            None => None,
        };
        proof {
            if id is Some {
                let i = self@.selected_place()->0 as int;
                assert(self@.messages()[i].id == id->0);
            }
        }
        id
    }

    /// Selects no message.
    fn deselect_msg(&mut self, name: &str)
        requires
            old(self)@.wf(),
            old(self)@.screen == Screen::Connected,
            old(self)@.has_channel(),
            name@ == old(self)@.channel(),
        ensures
            final(self)@ == old(self)@.deselect(),
            final(self)@.wf(),
    {
        self.selected_msg_ids.insert(name, None);
        self.selected_msg_idcs.insert(name, None);
    }

    /// Selects the message that the selected one replies to, if it is there.
    fn select_original(&mut self, name: &str)
        requires
            old(self)@.wf(),
            old(self)@.screen == Screen::Connected,
            old(self)@.has_channel(),
            name@ == old(self)@.channel(),
        ensures
            final(self)@ == old(self)@.go_to_original(),
            final(self)@.wf(),
    {
        let mut place: Option<usize> = None;
        if let Some(id) = self.selected_msg(name) {
            if let Some(list) = self.current_server.msgs.get(name) {
                if let Some(i) = find_msg(list, id) {
                    if let Some(original) = list[i].replying_to {
                        place = find_last(list, original);
                    }
                }
            }
        }
        if let Some(i) = place {
            self.select_msg(name, i);
        }
    }

    /// Copies the text of the selected message.
    fn copy_selected(&self, name: &str) -> (r: Vec<Effect>)
        requires
            self@.wf(),
            self@.screen == Screen::Connected,
            self@.has_channel(),
            name@ == self@.channel(),
        ensures
            all_compact(r@),
            effects_view(r@) == self@.copied(),
    {
        if let Some(id) = self.selected_msg(name) {
            if let Some(list) = self.current_server.msgs.get(name) {
                if let Some(i) = find_msg(list, id) {
                    return one_effect(Effect::Copy(list[i].msg.clone()));
                }
            }
        }
        no_effects()
    }

    /// Whether a key can be taken on the screen that shows the channels.
    pub fn connected_ready(&self, key: Key) -> (r: bool)
        requires
            self@.wf(),
            self@.screen == Screen::Connected,
        ensures
            r == self@.connected_ready(key),
    {
        let name = match self.selected_channel {
            Some(i) => if i < self.current_server.channels.len() {
                self.current_server.channels[i].clone()
            } else {
                return false;
            },
            None => {
                return false;
            },
        };
        if key == Key::Up {
            let place: Option<usize> = match self.selected_msg_idcs.get(name.as_str()) {
                Some(place) => *place,
                None => None,
            };
            let empty = match self.current_server.msgs.get(name.as_str()) {
                Some(list) => list.len() == 0,
                None => true,
            };
            if place.is_none() && empty {
                return false;
            }
        }
        match self.selected_connected_field {
            ConnectedField::Typing => match self.new_message_bufs.get(name.as_str()) {
                Some(buf) => buf.can_press(key),
                None => false,
            },
            ConnectedField::Channels => true,
        }
    }

    fn typing_keybinds(&mut self, name: &str, key: Key, now: u64) -> (r: Vec<Effect>)
        requires
            old(self)@.wf(),
            old(self)@.screen == Screen::Connected,
            old(self)@.connected_ready(key),
            name@ == old(self)@.channel(),
            old(self)@.selected_connected_field == ConnectedField::Typing,
        ensures
            final(self)@ == old(self)@.typing_key(key, now).0,
            all_compact(r@),
            effects_view(r@) == old(self)@.typing_key(key, now).1,
            final(self)@.wf(),
    {
        match key {
            Key::Esc => {
                self.selected_connected_field = ConnectedField::Channels;
            },
            Key::PageUp => self.page_up(),
            Key::PageDown => self.page_down(),
            Key::Enter => {
                return self.submit_line(name, now);
            },
            Key::Up => self.prev_msg(name),
            Key::Down => self.next_msg(name),
            Key::Tab => {},
            Key::Other => {},
            _ => self.edit_line(name, key),
        }
        no_effects()
    }

    fn channels_keybinds(&mut self, name: &str, key: Key) -> (r: Vec<Effect>)
        requires
            old(self)@.wf(),
            old(self)@.screen == Screen::Connected,
            old(self)@.connected_ready(key),
            name@ == old(self)@.channel(),
        ensures
            final(self)@ == old(self)@.channels_key(key).0,
            all_compact(r@),
            effects_view(r@) == old(self)@.channels_key(key).1,
            final(self)@.wf(),
    {
        match key {
            Key::Up => self.prev_msg(name),
            Key::Down => self.next_msg(name),
            Key::Esc => {
                return self.disconnect();
            },
            Key::Tab => {
                self.selected_connected_field = ConnectedField::Typing;
            },
            Key::PageUp => self.page_up(),
            Key::PageDown => self.page_down(),
            Key::Char('t') => {
                self.sidebar = !self.sidebar;
            },
            Key::Char('r') => {
                if let Some(id) = self.selected_msg(name) {
                    self.replying_to = Some(id);
                }
            },
            Key::Char('d') => self.deselect_msg(name),
            Key::Char('u') => {
                self.replying_to = None;
            },
            Key::Char('o') => self.select_original(name),
            Key::Char('c') => {
                return self.copy_selected(name);
            },
            _ => {},
        }
        no_effects()
    }

    /// Takes a key on the screen that shows the channels.
    pub fn connected_keybinds(&mut self, key: Key, now: u64) -> (r: Vec<Effect>)
        requires
            old(self)@.wf(),
            old(self)@.screen == Screen::Connected,
            old(self)@.connected_ready(key),
        ensures
            final(self)@ == old(self)@.connected_key(key, now).0,
            all_compact(r@),
            effects_view(r@) == old(self)@.connected_key(key, now).1,
            final(self)@.wf(),
    {
        let name = self.channel_name();
        match self.selected_connected_field {
            ConnectedField::Typing => self.typing_keybinds(name.as_str(), key, now),
            ConnectedField::Channels => self.channels_keybinds(name.as_str(), key),
        }
    }
}

} // verus!
