//! How the screens before a server's channels are shown.

use vstd::prelude::*;
use vstd::string::*;

use crate::input::InputView;
use crate::layout::{Constraint, Rect};
use crate::outside::{cuts_across, cuts_down, split_horizontal, split_vertical};
use crate::panel::{
    align_line, aligned, at_right, boxed, boxed_panel, centered, centered_line, hint, one_line,
    panels_view, plain, plain_line, push_hint, right_line, shown_view, unboxed, unboxed_panel,
    Panel, PanelView,
};
use crate::state::{App, AppView, FetcherInfo, LoginField, LoginView, PORT};
use crate::style::{
    line, line_of, lines_view, span, span_of, spans_view, text_line, Align, LineView, Span,
    SpanView, Style, TextLine,
};
use crate::words::{count_char, count_of, decimal, decimal_text, pad, padded, split, split_on};

verus! {

/// How long a server takes to answer, where that is known.
pub open spec fn ping_span(pings: Seq<Option<u128>>, i: int) -> SpanView {
    if i < pings.len() && pings[i] is Some {
        span_of(
            " "@ + padded(decimal(pings[i]->0 as nat) + "ms"@, 7) + " "@,
            Style::Plain,
        )
    } else {
        span_of(" Offline "@, Style::Red)
    }
}

/// What the keys do on the list of servers.
pub open spec fn selection_hints(on_server: bool) -> Seq<SpanView> {
    if on_server {
        hint(" Move Cursor "@, "<Up/Down>  "@) + hint("Connect "@, "<Enter>  "@) + hint(
            "Edit "@,
            "<E>  "@,
        ) + hint("Remove "@, "<DEL>  "@) + hint("New connection "@, "<N>  "@) + hint(
            "Exit "@,
            "<ESC> "@,
        )
    } else {
        hint(" Move Cursor "@, "<Up/Down>  "@) + hint(" New connection "@, "<Enter> "@)
    }
}

/// The parts of the screen with the list of servers: the greeting, and the list.
pub open spec fn selection_rows() -> Seq<Constraint> {
    seq![Constraint::Length(2), Constraint::Min(1)]
}

/// The columns of a screen with a column in the middle.
pub open spec fn middle_columns() -> Seq<Constraint> {
    seq![Constraint::Min(1), Constraint::Length(90), Constraint::Min(1)]
}

/// The rows of the screen for a new or changed server.
pub open spec fn new_rows() -> Seq<Constraint> {
    seq![Constraint::Min(1), Constraint::Length(3), Constraint::Min(1)]
}

/// The rows of the login screen.
pub open spec fn login_rows() -> Seq<Constraint> {
    seq![
        Constraint::Min(1),
        Constraint::Length(1),
        Constraint::Length(3),
        Constraint::Length(1),
        Constraint::Length(3),
        Constraint::Min(1),
    ]
}

/// How high the box with a text is.
pub open spec fn box_height(text: Seq<char>) -> nat {
    count_of(text, '\n') % 0x10000 + 3
}

/// The rows of a screen with a text in a box.
pub open spec fn box_rows(text: Seq<char>) -> Seq<Constraint> {
    seq![Constraint::Min(1), Constraint::Length(box_height(text) as u16), Constraint::Min(1)]
}

/// A text in a box.
pub open spec fn text_box(
    text: Seq<char>,
    title: Seq<char>,
    bottom: Seq<char>,
    area: Rect,
) -> PanelView {
    boxed(
        area,
        plain(title),
        Some(at_right(bottom)),
        split_on(text, '\n').map_values(|l: Seq<char>| centered(l)),
        (0, 0),
    )
}

/// A text in a box in the middle of the area, for some way in which the area may be cut. Nothing
/// where the box would be too high.
pub open spec fn box_shown(
    text: Seq<char>,
    title: Seq<char>,
    bottom: Seq<char>,
    area: Rect,
    shown: Option<Seq<PanelView>>,
) -> bool {
    if box_height(text) <= u16::MAX {
        exists|rows: Seq<Rect>| #[trigger]
            cuts_down(box_rows(text), area, rows) && shown == Some(
                seq![text_box(text, title, bottom, rows[1])],
            )
    } else {
        shown is None
    }
}

impl AppView {
    /// What is shown on the list of servers, for some way in which the area may be cut.
    pub open spec fn selection_shown(
        self,
        pings: Seq<Option<u128>>,
        area: Rect,
        after: AppView,
        shown: Option<Seq<PanelView>>,
    ) -> bool {
        &&& after == self.selection_sized(area.height)
        &&& exists|rows: Seq<Rect>| #[trigger]
            cuts_down(selection_rows(), area, rows) && shown == Some(
                after.selection_panels(pings, rows[0], rows[1]),
            )
    }

    /// What is shown on the screen for a new or changed server, for some way in which the area may
    /// be cut. Nothing where there is too little room.
    pub open spec fn new_shown(
        self,
        area: Rect,
        after: AppView,
        shown: Option<Seq<PanelView>>,
    ) -> bool {
        exists|columns: Seq<Rect>, rows: Seq<Rect>| #[trigger]
            cuts_across(middle_columns(), area, columns) && #[trigger] cuts_down(
                new_rows(),
                columns[1],
                rows,
            ) && if self.new_fits(columns[1].width) {
                after == self.new_sized(columns[1].width) && shown == Some(
                    after.new_panels(rows[1]),
                )
            } else {
                after == self && shown is None
            }
    }

    /// What is shown on the login screen, for some way in which the area may be cut. Nothing where
    /// there is too little room.
    pub open spec fn login_shown(
        self,
        area: Rect,
        after: AppView,
        shown: Option<Seq<PanelView>>,
    ) -> bool {
        exists|columns: Seq<Rect>, rows: Seq<Rect>| #[trigger]
            cuts_across(middle_columns(), area, columns) && #[trigger] cuts_down(
                login_rows(),
                columns[1],
                rows,
            ) && if self.login_fits(columns[1].width) {
                after == self.login_sized(columns[1].width) && shown == Some(
                    after.login_panels(rows[1], rows[2], rows[4]),
                )
            } else {
                after == self && shown is None
            }
    }

    /// The line of a server in the list.
    pub open spec fn server_row(self, pings: Seq<Option<u128>>, i: int) -> LineView {
        LineView {
            marked: i == self.selected_server,
            ..line_of(
                seq![
                    ping_span(pings, i),
                    span_of(self.servers[i], Style::Bold),
                    span_of(":"@ + decimal(PORT as nat) + " "@, Style::Gray),
                ],
            )
        }
    }

    /// The lines of the list from the place that it is scrolled to, and the line behind them.
    pub open spec fn server_rows(self, pings: Seq<Option<u128>>) -> Seq<LineView> {
        let count = if self.scroll_offset < self.servers.len() {
            self.servers.len() - self.scroll_offset
        } else {
            0
        };
        Seq::new(
            count as nat,
            |k: int| self.server_row(pings, self.scroll_offset + k),
        ).push(
            LineView {
                marked: !self.on_server(),
                ..line_of(
                    seq![
                        span_of(" + "@, Style::BoldGreen),
                        span_of("Add Server "@, Style::Bold),
                    ],
                )
            },
        )
    }

    /// The list of servers and the greeting.
    pub open spec fn selection_panels(
        self,
        pings: Seq<Option<u128>>,
        greeting: Rect,
        list: Rect,
    ) -> Seq<PanelView> {
        seq![
            boxed(
                list,
                aligned(
                    line_of(seq![span_of(" Server Selection "@, Style::Bold)]),
                    Align::Center,
                ),
                Some(aligned(line_of(selection_hints(self.on_server())), Align::Center)),
                self.server_rows(pings),
                (0, 0),
            ),
            unboxed(
                greeting,
                seq![
                    centered("Welcome to Volt IRC Client!"@),
                    centered("It is recommended that you use a nerd font"@),
                ],
            ),
        ]
    }

    /// The list of servers gets as high as the screen.
    pub open spec fn selection_sized(self, height: u16) -> AppView {
        AppView { server_selection_scroll_size: height, ..self }
    }

    /// The line for a server gets as wide as its column.
    pub open spec fn new_sized(self, width: u16) -> AppView {
        AppView {
            editing_server: InputView { bufsize: (width - 4) as usize, ..self.editing_server },
            ..self
        }
    }

    /// The column has room for the line for a server, and the line has a cell for the cursor.
    pub open spec fn new_fits(self, width: u16) -> bool {
        width >= 4 && self.new_sized(width).editing_server.can_draw(true, seq![])
    }

    /// The line for a server.
    pub open spec fn new_panels(self, area: Rect) -> Seq<PanelView> {
        let (shown, offset) = self.editing_server.draw(true, seq![]);
        seq![
            boxed(
                area,
                centered(" Hostname "@),
                Some(
                    aligned(
                        line_of(hint(" Confirm "@, "<Enter>  "@) + hint("Cancel "@, "<Esc>  "@)),
                        Align::Center,
                    ),
                ),
                seq![shown],
                (0, offset),
            ),
        ]
    }

    /// The lines of the login screen get as wide as their column.
    pub open spec fn login_sized(self, width: u16) -> AppView {
        AppView {
            login: LoginView {
                username: InputView { bufsize: (width - 4) as usize, ..self.login.username },
                password: InputView { bufsize: (width - 4) as usize, ..self.login.password },
            },
            ..self
        }
    }

    pub open spec fn at_password(self) -> bool {
        self.selected_login_field == LoginField::Password
    }

    /// The column has room for the lines of the login screen, and they have cells for the cursor.
    pub open spec fn login_fits(self, width: u16) -> bool {
        &&& width >= 4
        &&& self.login_sized(width).login.username.can_draw(!self.at_password(), seq![])
        &&& self.login_sized(width).login.password.can_draw_masked(self.at_password())
    }

    /// The lines of the login screen.
    pub open spec fn login_panels(self, intro: Rect, username: Rect, password: Rect) -> Seq<
        PanelView,
    > {
        let (name_line, name_offset) = self.login.username.draw(!self.at_password(), seq![]);
        let enter = if self.at_password() {
            " Log in "@
        } else {
            " Go to password field "@
        };
        seq![
            unboxed(
                intro,
                seq![
                    centered(
                        "Enter login credentials. Accounts that do not exist are automatically created."@,
                    ),
                ],
            ),
            boxed(username, plain(" Username "@), None, seq![name_line], (0, name_offset)),
            boxed(
                password,
                plain(" Password "@),
                Some(
                    aligned(
                        line_of(hint(enter, "<Enter>  "@) + hint("Cancel "@, "<Esc> "@)),
                        Align::Right,
                    ),
                ),
                seq![self.login.password.draw_masked(self.at_password())],
                (0, 0),
            ),
        ]
    }
}

fn ping_text(pings: &Vec<Option<u128>>, i: usize) -> (r: Span)
    ensures
        r@ == ping_span(pings@, i as int),
{
    if i < pings.len() {
        if let Some(ms) = pings[i] {
            let mut time = decimal_text(ms);
            time.append("ms");
            let mut text = " ".to_owned();
            text.append(pad(time.as_str(), 7).as_str());
            text.append(" ");
            return Span { text, style: Style::Plain };
        }
    }
    span(" Offline ", Style::Red)
}

fn selection_hint_line(on_server: bool) -> (r: TextLine)
    ensures
        r@ == aligned(line_of(selection_hints(on_server)), Align::Center),
{
    let mut spans: Vec<Span> = Vec::new();
    assert(spans_view(spans@) =~= seq![]);
    push_hint(&mut spans, " Move Cursor ", "<Up/Down>  ");
    if on_server {
        push_hint(&mut spans, "Connect ", "<Enter>  ");
        push_hint(&mut spans, "Edit ", "<E>  ");
        push_hint(&mut spans, "Remove ", "<DEL>  ");
        push_hint(&mut spans, "New connection ", "<N>  ");
        push_hint(&mut spans, "Exit ", "<ESC> ");
    } else {
        push_hint(&mut spans, " New connection ", "<Enter> ");
    }
    assert(spans_view(spans@) =~= selection_hints(on_server));
    align_line(line(spans), Align::Center)
}

/// A text in a box.
fn text_box_panel(text: &str, title: &str, bottom: &str, area: Rect) -> (r: Panel)
    ensures
        r@ == text_box(text@, title@, bottom@, area),
{
    let pieces = split(text, '\n');
    let ghost all = pieces@.map_values(|p: String| p@);
    let mut lines: Vec<TextLine> = Vec::new();
    let mut i: usize = 0;
    while i < pieces.len()
        invariant
            i <= pieces@.len(),
            all == pieces@.map_values(|p: String| p@),
            lines@.len() == i,
            forall|j: int| 0 <= j < i ==> (#[trigger] lines@[j])@ == centered(all[j]),
        decreases pieces@.len() - i,
    {
        lines.push(centered_line(pieces[i].as_str()));
        i += 1;
    }
    assert(lines_view(lines@) =~= all.map_values(|l: Seq<char>| centered(l)));
    boxed_panel(area, plain_line(title), Some(right_line(bottom)), lines, (0, 0))
}

/// A text in a box in the middle of the area, where the box can be as high as the text asks.
pub fn show_box(text: &str, title: &str, bottom: &str, area: Rect) -> (r: Option<Vec<Panel>>)
    ensures
        box_shown(text@, title@, bottom@, area, shown_view(r)),
{
    let height = count_char(text, '\n') % 0x10000 + 3;
    if height > 0xffff {
        return None;
    }
    let parts: Vec<Constraint> = vec![
        Constraint::Min(1),
        Constraint::Length(height as u16),
        Constraint::Min(1),
    ];
    assert(parts@ =~= box_rows(text@));
    let rows = split_vertical(&parts, area);
    let mut panels: Vec<Panel> = Vec::new();
    panels.push(text_box_panel(text, title, bottom, rows[1]));
    assert(panels_view(panels@) =~= seq![text_box(text@, title@, bottom@, rows@[1])]);
    Some(panels)
}

impl App {
    /// The line of a server in the list.
    fn server_line(&self, pings: &Vec<Option<u128>>, i: usize) -> (r: TextLine)
        requires
            i < self.servers@.len(),
        ensures
            r@ == self@.server_row(pings@, i as int),
    {
        let mut port = ":".to_owned();
        port.append(decimal_text(PORT as u128).as_str());
        port.append(" ");
        let mut spans: Vec<Span> = Vec::new();
        spans.push(ping_text(pings, i));
        spans.push(span(self.servers[i].hostname.as_str(), Style::Bold));
        spans.push(Span { text: port, style: Style::Gray });
        assert(spans_view(spans@) =~= self@.server_row(pings@, i as int).spans);
        TextLine { spans, marked: i == self.selected_server, align: Align::Left }
    }

    /// The lines of the list of servers.
    fn server_lines(&self, pings: &Vec<Option<u128>>) -> (r: Vec<TextLine>)
        requires
            self@.scroll_offset >= 0,
        ensures
            lines_view(r@) == self@.server_rows(pings@),
    {
        let mut lines: Vec<TextLine> = Vec::new();
        let mut i: usize = 0;
        while i < self.servers.len()
            invariant
                i <= self.servers@.len(),
                self@.scroll_offset >= 0,
                lines@.len() == if i < self@.scroll_offset {
                    0
                } else {
                    i - self@.scroll_offset
                },
                forall|k: int|
                    0 <= k < lines@.len() ==> (#[trigger] lines@[k])@ == self@.server_row(
                        pings@,
                        self@.scroll_offset + k,
                    ),
            decreases self.servers@.len() - i,
        {
            if i as u64 >= self.scroll_offset as u64 {
                lines.push(self.server_line(pings, i));
            }
            i += 1;
        }
        let mut spans: Vec<Span> = Vec::new();
        spans.push(span(" + ", Style::BoldGreen));
        spans.push(span("Add Server ", Style::Bold));
        assert(spans_view(spans@) =~= seq![
            span_of(" + "@, Style::BoldGreen),
            span_of("Add Server "@, Style::Bold),
        ]);
        let marked = self.selected_server >= self.servers.len();
        lines.push(TextLine { spans, marked, align: Align::Left });
        assert(lines_view(lines@) =~= self@.server_rows(pings@));
        lines
    }

    /// The list of servers and the greeting in their areas.
    pub fn selection_panels(&self, info: &FetcherInfo, greeting: Rect, list: Rect) -> (r: Vec<
        Panel,
    >)
        requires
            self@.scroll_offset >= 0,
        ensures
            panels_view(r@) == self@.selection_panels(info.ping_times@, greeting, list),
    {
        let on_server = self.selected_server < self.servers.len();
        let title = align_line(text_line(" Server Selection ", Style::Bold), Align::Center);
        let servers = boxed_panel(
            list,
            title,
            Some(selection_hint_line(on_server)),
            self.server_lines(&info.ping_times),
            (0, 0),
        );
        let mut welcome: Vec<TextLine> = Vec::new();
        welcome.push(centered_line("Welcome to Volt IRC Client!"));
        welcome.push(centered_line("It is recommended that you use a nerd font"));
        assert(lines_view(welcome@) =~= seq![
            centered("Welcome to Volt IRC Client!"@),
            centered("It is recommended that you use a nerd font"@),
        ]);
        let mut panels: Vec<Panel> = Vec::new();
        panels.push(servers);
        panels.push(unboxed_panel(greeting, welcome));
        assert(panels_view(panels@) =~= self@.selection_panels(info.ping_times@, greeting, list));
        panels
    }

    /// Shows the list of servers.
    pub fn show_selection(&mut self, info: &FetcherInfo, area: Rect) -> (r: Vec<Panel>)
        requires
            old(self)@.scroll_offset >= 0,
        ensures
            old(self)@.selection_shown(
                info.ping_times@,
                area,
                final(self)@,
                Some(panels_view(r@)),
            ),
    {
        self.server_selection_scroll_size = area.height;
        let parts: Vec<Constraint> = vec![Constraint::Length(2), Constraint::Min(1)];
        assert(parts@ =~= selection_rows());
        let rows = split_vertical(&parts, area);
        self.selection_panels(info, rows[0], rows[1])
    }

    /// The line for a server in its area, sized for the width of its column.
    pub fn new_panels(&mut self, width: u16, area: Rect) -> (r: Option<Vec<Panel>>)
        ensures
            r is Some <==> old(self)@.new_fits(width),
            match r {
                Some(panels) => {
                    &&& final(self)@ == old(self)@.new_sized(width)
                    &&& panels_view(panels@) == final(self)@.new_panels(area)
                },
                None => *final(self) == *old(self),
            },
    {
        if width < 4 {
            return None;
        }
        let before = self.editing_server.bufsize;
        self.editing_server.bufsize = (width - 4) as usize;
        proof {
            reveal_strlit("");
            assert(""@ =~= seq![]);
        }
        if !self.editing_server.can_draw(true, "") {
            self.editing_server.bufsize = before;
            return None;
        }
        let (shown, offset) = self.editing_server.draw(true, Some("".to_owned()));
        let mut spans: Vec<Span> = Vec::new();
        assert(spans_view(spans@) =~= seq![]);
        push_hint(&mut spans, " Confirm ", "<Enter>  ");
        push_hint(&mut spans, "Cancel ", "<Esc>  ");
        assert(spans_view(spans@) =~= hint(" Confirm "@, "<Enter>  "@) + hint(
            "Cancel "@,
            "<Esc>  "@,
        ));
        let mut panels: Vec<Panel> = Vec::new();
        panels.push(
            boxed_panel(
                area,
                centered_line(" Hostname "),
                Some(align_line(line(spans), Align::Center)),
                one_line(shown),
                (0, offset),
            ),
        );
        assert(panels_view(panels@) =~= self@.new_panels(area));
        Some(panels)
    }

    /// Shows the screen for a new or changed server, where there is room for it.
    pub fn show_new(&mut self, area: Rect) -> (r: Option<Vec<Panel>>)
        ensures
            old(self)@.new_shown(area, final(self)@, shown_view(r)),
    {
        let across: Vec<Constraint> = vec![
            Constraint::Min(1),
            Constraint::Length(90),
            Constraint::Min(1),
        ];
        assert(across@ =~= middle_columns());
        let columns = split_horizontal(&across, area);
        let down: Vec<Constraint> = vec![
            Constraint::Min(1),
            Constraint::Length(3),
            Constraint::Min(1),
        ];
        assert(down@ =~= new_rows());
        let rows = split_vertical(&down, columns[1]);
        self.new_panels(columns[1].width, rows[1])
    }

    /// The lines of the login screen in their areas, sized for the width of their column.
    pub fn login_panels(&mut self, width: u16, intro: Rect, username: Rect, password: Rect) -> (r:
        Option<Vec<Panel>>)
        ensures
            r is Some <==> old(self)@.login_fits(width),
            match r {
                Some(panels) => {
                    &&& final(self)@ == old(self)@.login_sized(width)
                    &&& panels_view(panels@) == final(self)@.login_panels(
                        intro,
                        username,
                        password,
                    )
                },
                None => *final(self) == *old(self),
            },
    {
        if width < 4 {
            return None;
        }
        let name_before = self.login.username.bufsize;
        let word_before = self.login.password.bufsize;
        self.login.username.bufsize = (width - 4) as usize;
        self.login.password.bufsize = (width - 4) as usize;
        let at_password = self.selected_login_field == LoginField::Password;
        proof {
            reveal_strlit("");
            assert(""@ =~= seq![]);
        }
        if !self.login.username.can_draw(!at_password, "") || !self.login.password.can_draw_masked(
            at_password,
        ) {
            self.login.username.bufsize = name_before;
            self.login.password.bufsize = word_before;
            return None;
        }
        let (name_line, name_offset) = self.login.username.draw(!at_password, None);
        let word_line = self.login.password.draw_masked(at_password);
        let mut spans: Vec<Span> = Vec::new();
        assert(spans_view(spans@) =~= seq![]);
        let enter = if at_password {
            " Log in "
        } else {
            " Go to password field "
        };
        push_hint(&mut spans, enter, "<Enter>  ");
        push_hint(&mut spans, "Cancel ", "<Esc> ");
        assert(spans_view(spans@) =~= hint(enter@, "<Enter>  "@) + hint("Cancel "@, "<Esc> "@));
        let hints = align_line(line(spans), Align::Right);
        let mut panels: Vec<Panel> = Vec::new();
        panels.push(
            unboxed_panel(
                intro,
                one_line(
                    centered_line(
                        "Enter login credentials. Accounts that do not exist are automatically created.",
                    ),
                ),
            ),
        );
        panels.push(
            boxed_panel(
                username,
                plain_line(" Username "),
                None,
                one_line(name_line),
                (0, name_offset),
            ),
        );
        panels.push(
            boxed_panel(
                password,
                plain_line(" Password "),
                Some(hints),
                one_line(word_line),
                (0, 0),
            ),
        );
        assert(panels_view(panels@) =~= self@.login_panels(intro, username, password));
        Some(panels)
    }

    /// Shows the login screen, where there is room for it.
    pub fn show_login(&mut self, area: Rect) -> (r: Option<Vec<Panel>>)
        ensures
            old(self)@.login_shown(area, final(self)@, shown_view(r)),
    {
        let across: Vec<Constraint> = vec![
            Constraint::Min(1),
            Constraint::Length(90),
            Constraint::Min(1),
        ];
        assert(across@ =~= middle_columns());
        let columns = split_horizontal(&across, area);
        let down: Vec<Constraint> = vec![
            Constraint::Min(1),
            Constraint::Length(1),
            Constraint::Length(3),
            Constraint::Length(1),
            Constraint::Length(3),
            Constraint::Min(1),
        ];
        assert(down@ =~= login_rows());
        let rows = split_vertical(&down, columns[1]);
        self.login_panels(columns[1].width, rows[1], rows[2], rows[4])
    }
}

} // verus!
