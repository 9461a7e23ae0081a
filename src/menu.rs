use crate::error::Error;
use crate::identity::MessageHandle;
use crate::events::{finished_of, lemma_sweep_retires_finished};
use crate::registry::{apply_op, drain, EventDrivenMessageContainer, RegistryOp};
use crate::table::{
    find, find_text, keys_unique, keys_view, lemma_index_of, lemma_put_unique, lookup, put,
    put_entry, put_text, texts_view,
};
use vstd::prelude::*;
use vstd::string::*;

verus! {

/// The reaction that shows the next page.
pub const NEXT_PAGE_EMOJI: &'static str = "➡️";

/// The reaction that shows the previous page.
pub const PREVIOUS_PAGE_EMOJI: &'static str = "⬅️";

/// The reaction that closes the menu.
pub const CLOSE_MENU_EMOJI: &'static str = "❌";

/// The reaction that shows or hides the help text.
pub const HELP_EMOJI: &'static str = "❔";

/// The display position of the help control.
pub const HELP_POSITION: isize = 100;

/// The time a menu stays open unless told otherwise, in milliseconds.
pub const DEFAULT_TIMEOUT_MS: u64 = 60000;

/// What a control does when its reaction is added.
#[derive(Clone, Copy, Debug, PartialEq, Eq, Structural)]
pub enum ControlAction {
    PreviousPage,
    NextPage,
    CloseMenu,
    ToggleHelp,
    /// An action of the menu's user, known to them by this number.
    Custom(u64),
}

/// A control's action with its display position: lower positions come first
/// in the help text and among the menu's reactions.
#[derive(Clone, Copy, Debug, PartialEq, Eq, Structural)]
pub struct ActionContainer {
    pub action: ControlAction,
    pub position: isize,
}

/// What the message should show: a page, with the help text below it or not.
#[derive(Clone, Debug, PartialEq, Eq)]
pub struct Rendering {
    pub page: usize,
    pub help: Option<String>,
}

/// The abstract state of a menu.
pub ghost struct MenuView<P> {
    pub message: MessageHandle,
    pub pages: Seq<P>,
    pub current_page: nat,
    pub controls: Seq<(Seq<char>, ActionContainer)>,
    pub help: Seq<(Seq<char>, Seq<char>)>,
    pub owner: Option<u64>,
    pub deadline: u64,
    pub sticky: bool,
    pub closed: bool,
    pub help_shown: bool,
}

/// A paginated menu attached to one message, driven by reactions and ticks.
/// The pages are of the caller's type `P` and are only handed back.
pub struct Menu<P> {
    message: MessageHandle,
    pages: Vec<P>,
    current_page: usize,
    controls: Vec<(String, ActionContainer)>,
    help_entries: Vec<(String, String)>,
    owner: Option<u64>,
    deadline: u64,
    sticky: bool,
    closed: bool,
    help_shown: bool,
}

impl<P> View for Menu<P> {
    type V = MenuView<P>;

    closed spec fn view(&self) -> MenuView<P> {
        MenuView {
            message: self.message,
            pages: self.pages@,
            current_page: self.current_page as nat,
            controls: keys_view(self.controls@),
            help: texts_view(self.help_entries@),
            owner: self.owner,
            deadline: self.deadline,
            sticky: self.sticky,
            closed: self.closed,
            help_shown: self.help_shown,
        }
    }
}

/// A well-formed menu has a page to show and no two controls or help
/// entries on one reaction.
pub open spec fn menu_wf<P>(v: MenuView<P>) -> bool {
    &&& 0 < v.pages.len()
    &&& v.current_page < v.pages.len()
    &&& keys_unique(v.controls)
    &&& keys_unique(v.help)
}

/// The position in `order` before which a control at position `p` goes:
/// after every control at a position up to `p`.
pub open spec fn first_after(cs: Seq<(Seq<char>, ActionContainer)>, order: Seq<int>, p: int) -> int
    decreases order.len(),
{
    if order.len() == 0 {
        0
    } else if cs[order[0]].1.position > p {
        0
    } else {
        1 + first_after(cs, order.drop_first(), p)
    }
}

/// The display order of the first `n` controls: by ascending position, and
/// in insertion order among equal positions.
pub open spec fn display_order_upto(cs: Seq<(Seq<char>, ActionContainer)>, n: nat) -> Seq<int>
    decreases n,
{
    if n == 0 {
        Seq::empty()
    } else {
        let order = display_order_upto(cs, (n - 1) as nat);
        order.insert(first_after(cs, order, cs[n - 1].1.position as int), n - 1)
    }
}

/// The indices of all controls, in display order.
pub open spec fn display_order(cs: Seq<(Seq<char>, ActionContainer)>) -> Seq<int> {
    display_order_upto(cs, cs.len())
}

/// One line of help text.
pub open spec fn help_line(symbol: Seq<char>, text: Seq<char>) -> Seq<char> {
    seq![' ', '-', ' '] + symbol + seq![' '] + text
}

/// The help lines of the controls at the first `n` places of `order`; a
/// control without a help entry has no line.
pub open spec fn help_lines_upto(
    cs: Seq<(Seq<char>, ActionContainer)>,
    help: Seq<(Seq<char>, Seq<char>)>,
    order: Seq<int>,
    n: nat,
) -> Seq<Seq<char>>
    decreases n,
{
    if n == 0 {
        Seq::empty()
    } else {
        let lines = help_lines_upto(cs, help, order, (n - 1) as nat);
        let symbol = cs[order[n - 1]].0;
        match lookup(help, symbol) {
            Some(text) => lines.push(help_line(symbol, text)),
            None => lines,
        }
    }
}

/// Lines joined by line breaks.
pub open spec fn join_lines(lines: Seq<Seq<char>>) -> Seq<char>
    decreases lines.len(),
{
    if lines.len() == 0 {
        Seq::empty()
    } else if lines.len() == 1 {
        lines[0]
    } else {
        join_lines(lines.drop_last()) + seq!['\n'] + lines.last()
    }
}

/// The help text of a menu: one line per control with a help entry, in
/// display order.
pub open spec fn help_text<P>(v: MenuView<P>) -> Seq<char> {
    join_lines(
        help_lines_upto(v.controls, v.help, display_order(v.controls), v.controls.len()),
    )
}

/// What a menu in state `v` shows.
pub open spec fn displayed<P>(v: MenuView<P>) -> (nat, Option<Seq<char>>) {
    (v.current_page, if v.help_shown {
        Some(help_text(v))
    } else {
        None
    })
}

/// Whether the rendering `r` is what the menu in state `v` shows.
pub open spec fn shows<P>(r: Rendering, v: MenuView<P>) -> bool {
    &&& r.page == displayed(v).0
    &&& match r.help {
        Some(h) => displayed(v).1 == Some(h@),
        None => displayed(v).1 is None,
    }
}

proof fn lemma_first_after(cs: Seq<(Seq<char>, ActionContainer)>, order: Seq<int>, p: int, k: int)
    requires
        0 <= k <= order.len(),
        forall|j: int| 0 <= j < k ==> cs[#[trigger] order[j]].1.position <= p,
        k < order.len() ==> cs[order[k]].1.position > p,
    ensures
        first_after(cs, order, p) == k,
    decreases order.len(),
{
    if order.len() > 0 && k > 0 {
        let rest = order.drop_first();
        assert forall|j: int| 0 <= j < k - 1 implies cs[#[trigger] rest[j]].1.position <= p by {
            assert(rest[j] == order[j + 1]);
        }
        if k < order.len() {
            assert(rest[k - 1] == order[k]);
        }
        lemma_first_after(cs, rest, p, k - 1);
    }
}

impl<P> Menu<P> {
    /// The indices of the controls in display order: by ascending position,
    /// and in the order they were added among equal positions.
    pub fn control_order(&self) -> (r: Vec<usize>)
        ensures
            r@.map_values(|x: usize| x as int) == display_order(self@.controls),
            forall|a: int, b: int|
                0 <= a < b < r@.len() ==> self@.controls[#[trigger] r@[a] as int].1.position
                    <= self@.controls[#[trigger] r@[b] as int].1.position,
    {
        let ghost cs = self@.controls;
        let mut order: Vec<usize> = Vec::new();
        let mut i: usize = 0;
        while i < self.controls.len()
            invariant
                i <= self.controls@.len(),
                cs == self@.controls,
                cs.len() == self.controls@.len(),
                order@.map_values(|x: usize| x as int) == display_order_upto(cs, i as nat),
                forall|j: int| 0 <= j < order@.len() ==> #[trigger] order@[j] < i,
                forall|a: int, b: int|
                    0 <= a < b < order@.len() ==> self.controls@[#[trigger] order@[a] as int].1.position
                        <= self.controls@[#[trigger] order@[b] as int].1.position,
            decreases self.controls@.len() - i,
        {
            let p = self.controls[i].1.position;
            let mut k: usize = 0;
            while k < order.len() && self.controls[order[k]].1.position <= p
                invariant
                    k <= order@.len(),
                    i < self.controls@.len(),
                    forall|j: int| 0 <= j < order@.len() ==> #[trigger] order@[j] < i,
                    forall|j: int|
                        0 <= j < k ==> self.controls@[#[trigger] order@[j] as int].1.position <= p,
                decreases order@.len() - k,
            {
                k = k + 1;
            }
            proof {
                let o = order@.map_values(|x: usize| x as int);
                assert forall|j: int| 0 <= j < k implies cs[#[trigger] o[j]].1.position <= p by {
                    assert(self.controls@[order@[j] as int].1.position <= p);
                }
                lemma_first_after(cs, o, p as int, k as int);
            }
            let ghost before = order@;
            order.insert(k, i);
            proof {
                let o = before.map_values(|x: usize| x as int);
                assert(order@.map_values(|x: usize| x as int) =~= o.insert(k as int, i as int));
                assert forall|a: int, b: int|
                    0 <= a < b < order@.len() implies self.controls@[#[trigger] order@[a] as int].1.position
                    <= self.controls@[#[trigger] order@[b] as int].1.position by {
                    if b == k {
                        assert(order@[a] == before[a]);
                    } else if a == k {
                        assert(order@[b] == before[b - 1]);
                        assert(self.controls@[before[k as int] as int].1.position > p);
                        if b - 1 > k {
                            assert(self.controls@[before[k as int] as int].1.position
                                <= self.controls@[before[b - 1] as int].1.position);
                        }
                    } else if a < k && b < k {
                        assert(order@[a] == before[a] && order@[b] == before[b]);
                    } else if a < k {
                        assert(order@[a] == before[a] && order@[b] == before[b - 1]);
                    } else {
                        assert(order@[a] == before[a - 1] && order@[b] == before[b - 1]);
                    }
                }
            }
            i = i + 1;
        }
        proof {
            assert forall|a: int, b: int|
                0 <= a < b < order@.len() implies cs[#[trigger] order@[a] as int].1.position
                <= cs[#[trigger] order@[b] as int].1.position by {
                assert(self.controls@[order@[a] as int].1.position
                    <= self.controls@[order@[b] as int].1.position);
            }
        }
        order
    }
}

} // verus!

verus! {

/// The menu with page `p` shown plain.
pub open spec fn with_page<P>(v: MenuView<P>, p: nat) -> MenuView<P> {
    MenuView { current_page: p, help_shown: false, ..v }
}

/// The menu with its help shown if it was hidden, and hidden if it was shown.
pub open spec fn toggled<P>(v: MenuView<P>) -> MenuView<P> {
    MenuView { help_shown: !v.help_shown, ..v }
}

proof fn lemma_first_after_range(cs: Seq<(Seq<char>, ActionContainer)>, order: Seq<int>, p: int)
    ensures
        0 <= first_after(cs, order, p) <= order.len(),
    decreases order.len(),
{
    if order.len() > 0 {
        lemma_first_after_range(cs, order.drop_first(), p);
    }
}

/// The display order of the first `n` controls names each of them once.
pub proof fn lemma_display_order_shape(cs: Seq<(Seq<char>, ActionContainer)>, n: nat)
    requires
        n <= cs.len(),
    ensures
        display_order_upto(cs, n).len() == n,
        forall|j: int| 0 <= j < n ==> 0 <= #[trigger] display_order_upto(cs, n)[j] < n,
        forall|a: int, b: int|
            0 <= a < b < n ==> #[trigger] display_order_upto(cs, n)[a] != #[trigger] display_order_upto(
                cs,
                n,
            )[b],
    decreases n,
{
    if n > 0 {
        let prev = display_order_upto(cs, (n - 1) as nat);
        lemma_display_order_shape(cs, (n - 1) as nat);
        let k = first_after(cs, prev, cs[n - 1].1.position as int);
        lemma_first_after_range(cs, prev, cs[n - 1].1.position as int);
        let o = prev.insert(k, n - 1);
        assert(o == display_order_upto(cs, n));
        assert forall|j: int| 0 <= j < n implies 0 <= #[trigger] o[j] < n by {
            if j > k {
                assert(o[j] == prev[j - 1]);
            } else if j < k {
                assert(o[j] == prev[j]);
            }
        }
        assert forall|a: int, b: int| 0 <= a < b < n implies #[trigger] o[a] != #[trigger] o[b] by {
            if a < k && b < k {
                assert(o[a] == prev[a] && o[b] == prev[b]);
            } else if a < k && b > k {
                assert(o[a] == prev[a] && o[b] == prev[b - 1]);
            } else if a > k {
                assert(o[a] == prev[a - 1] && o[b] == prev[b - 1]);
            } else if a == k {
                assert(o[b] == prev[b - 1]);
            } else {
                assert(o[a] == prev[a]);
            }
        }
    }
}

impl<P> Menu<P> {
    /// The help text: one line ` - <reaction> <description>` for each control
    /// that has a help entry, in display order, joined by line breaks.
    pub fn help_text(&self) -> (r: String)
        ensures
            r@ == help_text(self@),
    {
        let order = self.control_order();
        let ghost cs = self@.controls;
        let ghost help = self@.help;
        let ghost o = display_order(cs);
        proof {
            lemma_display_order_shape(cs, cs.len());
            reveal_strlit(" - ");
            reveal_strlit(" ");
            reveal_strlit("\n");
        }
        let mut text = String::new();
        let mut empty = true;
        let mut j: usize = 0;
        while j < order.len()
            invariant
                j <= order@.len(),
                cs == self@.controls,
                help == self@.help,
                order@.map_values(|x: usize| x as int) == o,
                o == display_order(cs),
                o.len() == cs.len(),
                cs.len() == self.controls@.len(),
                forall|i: int| 0 <= i < o.len() ==> 0 <= #[trigger] o[i] < cs.len(),
                text@ == join_lines(help_lines_upto(cs, help, o, j as nat)),
                empty == (help_lines_upto(cs, help, o, j as nat).len() == 0),
                " - "@ == seq![' ', '-', ' '],
                " "@ == seq![' '],
                "\n"@ == seq!['\n'],
            decreases order@.len() - j,
        {
            let idx = order[j];
            assert(o[j as int] == idx as int);
            let symbol = &self.controls[idx].0;
            let ghost lines = help_lines_upto(cs, help, o, j as nat);
            proof {
                lemma_index_of(help, symbol@);
            }
            match find_text(&self.help_entries, symbol) {
                Some(h) => {
                    let ghost line = help_line(symbol@, self.help_entries@[h as int].1@);
                    if !empty {
                        text.append("\n");
                    }
                    text.append(" - ");
                    text.append(symbol.as_str());
                    text.append(" ");
                    text.append(self.help_entries[h].1.as_str());
                    assert(lines.push(line).drop_last() == lines);
                    assert(help_lines_upto(cs, help, o, (j + 1) as nat) == lines.push(line));
                    empty = false;
                },
                None => {},
            }
            j = j + 1;
        }
        text
    }
}

/// Shows the current page plain, without the help text.
pub fn display_page<P>(menu: &mut Menu<P>) -> (r: Result<Rendering, Error>)
    requires
        menu_wf(old(menu)@),
    ensures
        final(menu)@ == with_page(old(menu)@, old(menu)@.current_page),
        r is Ok && shows(r->Ok_0, final(menu)@),
{
    menu.help_shown = false;
    Ok(Rendering { page: menu.current_page, help: None })
}

/// Shows the next page, after the last one the first.
pub fn next_page<P>(menu: &mut Menu<P>) -> (r: Rendering)
    requires
        menu_wf(old(menu)@),
    ensures
        final(menu)@ == with_page(old(menu)@, (old(menu)@.current_page + 1) % old(menu)@.pages.len()),
        menu_wf(final(menu)@),
        shows(r, final(menu)@),
{
    let count = menu.pages.len();
    menu.current_page = (menu.current_page + 1) % count;
    menu.help_shown = false;
    Rendering { page: menu.current_page, help: None }
}

/// Shows the previous page, before the first one the last.
pub fn previous_page<P>(menu: &mut Menu<P>) -> (r: Rendering)
    requires
        menu_wf(old(menu)@),
    ensures
        final(menu)@ == with_page(
            old(menu)@,
            if old(menu)@.current_page == 0 {
                (old(menu)@.pages.len() - 1) as nat
            } else {
                (old(menu)@.current_page - 1) as nat
            },
        ),
        menu_wf(final(menu)@),
        shows(r, final(menu)@),
{
    if menu.current_page == 0 {
        menu.current_page = menu.pages.len() - 1;
    } else {
        menu.current_page = menu.current_page - 1;
    }
    menu.help_shown = false;
    Rendering { page: menu.current_page, help: None }
}

/// Shows the help text below the current page if it is hidden, and hides it
/// if it is shown.
pub fn toggle_help<P>(menu: &mut Menu<P>) -> (r: Rendering)
    requires
        menu_wf(old(menu)@),
    ensures
        final(menu)@ == toggled(old(menu)@),
        menu_wf(final(menu)@),
        shows(r, final(menu)@),
{
    if menu.help_shown {
        menu.help_shown = false;
        Rendering { page: menu.current_page, help: None }
    } else {
        let text = menu.help_text();
        menu.help_shown = true;
        Rendering { page: menu.current_page, help: Some(text) }
    }
}

/// Showing the help and hiding it again, or the other way round, restores
/// both the menu and what it shows.
pub proof fn lemma_toggle_help_twice<P>(v: MenuView<P>)
    ensures
        toggled(toggled(v)) == v,
        displayed(toggled(toggled(v))) == displayed(v),
{
}

} // verus!

verus! {

/// What to do with a reaction added to a menu's message.
#[derive(Clone, Copy, Debug, PartialEq, Eq, Structural)]
pub enum ReactionDecision {
    /// Leave the reaction and change nothing.
    Ignore,
    /// Remove the reaction from the message and change nothing else.
    RemoveOnly,
    /// Remove the reaction from the message, then run the control's action.
    RemoveAndRun(ActionContainer),
}

/// What running a control asks of the message.
#[derive(Clone, Debug, PartialEq, Eq)]
pub enum MenuEffect {
    /// Show this rendering on the message.
    Render(Rendering),
    /// Strip the message's reactions, then close the menu with `close_menu`.
    Close,
    /// Run the user's action with this number.
    Custom(u64),
}

/// What a periodic tick asks of the menu.
#[derive(Clone, Copy, Debug, PartialEq, Eq, Structural)]
pub enum TickDecision {
    /// Nothing to do.
    Idle,
    /// The deadline has passed: strip the message's reactions, then `close`.
    Close,
    /// The menu is sticky: look for messages posted after this one, and if
    /// there are any, send the current page anew and `recreate` the menu there.
    CheckForNewer(MessageHandle),
}

/// The decision on a reaction with `symbol`, added by `reactor` (absent when
/// the platform did not say), where `me` is the bot's own user.
pub open spec fn reaction_decision<P>(
    v: MenuView<P>,
    reactor: Option<u64>,
    me: u64,
    symbol: Seq<char>,
) -> Result<ReactionDecision, Error> {
    if v.closed {
        Ok(ReactionDecision::Ignore)
    } else {
        match reactor {
            None => Err(Error::NoCache),
            Some(user) => if user == me {
                Ok(ReactionDecision::Ignore)
            } else if v.owner is Some && v.owner->Some_0 != user {
                Ok(ReactionDecision::RemoveOnly)
            } else {
                match lookup(v.controls, symbol) {
                    Some(c) => Ok(ReactionDecision::RemoveAndRun(c)),
                    None => Ok(ReactionDecision::RemoveOnly),
                }
            },
        }
    }
}

/// The menu after running a built-in action; the others change nothing.
pub open spec fn after_action<P>(v: MenuView<P>, a: ControlAction) -> MenuView<P> {
    match a {
        ControlAction::NextPage => with_page(v, (v.current_page + 1) % v.pages.len()),
        ControlAction::PreviousPage => with_page(
            v,
            if v.current_page == 0 {
                (v.pages.len() - 1) as nat
            } else {
                (v.current_page - 1) as nat
            },
        ),
        ControlAction::ToggleHelp => toggled(v),
        _ => v,
    }
}

/// The decision on a tick at time `now`.
pub open spec fn tick_decision<P>(v: MenuView<P>, now: u64) -> TickDecision {
    if v.closed {
        TickDecision::Idle
    } else if now >= v.deadline {
        TickDecision::Close
    } else if v.sticky {
        TickDecision::CheckForNewer(v.message)
    } else {
        TickDecision::Idle
    }
}

/// The menu after it was closed.
pub open spec fn closed_view<P>(v: MenuView<P>) -> MenuView<P> {
    MenuView { closed: true, ..v }
}

impl ActionContainer {
    /// A control action shown at `position`.
    pub fn new(position: isize, action: ControlAction) -> (r: ActionContainer)
        ensures
            r.position == position,
            r.action == action,
    {
        ActionContainer { action, position }
    }

    /// The position of the action.
    pub fn position(&self) -> (r: isize)
        ensures
            r == self.position,
    {
        self.position
    }

    /// Runs the action on `menu`: a built-in one changes the page or the help,
    /// or asks for the menu to be closed; a custom one is handed back.
    pub fn run<P>(&self, menu: &mut Menu<P>) -> (r: MenuEffect)
        requires
            menu_wf(old(menu)@),
        ensures
            final(menu)@ == after_action(old(menu)@, self.action),
            menu_wf(final(menu)@),
            match self.action {
                ControlAction::CloseMenu => r == MenuEffect::Close,
                ControlAction::Custom(id) => r == MenuEffect::Custom(id),
                _ => r is Render && shows(r->Render_0, final(menu)@),
            },
    {
        match self.action {
            ControlAction::NextPage => MenuEffect::Render(next_page(menu)),
            ControlAction::PreviousPage => MenuEffect::Render(previous_page(menu)),
            ControlAction::ToggleHelp => MenuEffect::Render(toggle_help(menu)),
            ControlAction::CloseMenu => MenuEffect::Close,
            ControlAction::Custom(id) => MenuEffect::Custom(id),
        }
    }
}

/// Closes the menu and takes its entry out of the registry, once the
/// message's reactions are stripped. Returns the listener key that was filed.
pub fn close_menu<P>(menu: &mut Menu<P>, registry: &mut EventDrivenMessageContainer) -> (r: Option<
    u64,
>)
    requires
        old(registry).wf(),
    ensures
        final(menu)@ == closed_view(old(menu)@),
        final(registry).wf(),
        final(registry)@ == old(registry)@.remove(old(menu)@.message),
        final(registry).issued() == old(registry).issued(),
        r == (if old(registry)@.contains_key(old(menu)@.message) {
            Some(old(registry)@[old(menu)@.message])
        } else {
            None::<u64>
        }),
{
    menu.close();
    registry.remove(&menu.message)
}

impl<P> Menu<P> {
    /// Decides what to do with a reaction with `symbol` added by `reactor`,
    /// where `current_user` is the bot itself. The bot's own reactions are
    /// left alone; every other one is removed, and runs its control only if
    /// the menu has no owner or the reactor is the owner.
    pub fn on_reaction_add(&self, reactor: Option<u64>, current_user: u64, symbol: &String) -> (r:
        Result<ReactionDecision, Error>)
        requires
            menu_wf(self@),
        ensures
            r == reaction_decision(self@, reactor, current_user, symbol@),
            reactor == Some(current_user) ==> r == Ok::<ReactionDecision, Error>(
                ReactionDecision::Ignore,
            ),
            !self@.closed && reactor is Some && reactor->Some_0 != current_user
                && self@.owner is Some && self@.owner->Some_0 != reactor->Some_0 ==> r == Ok::<
                ReactionDecision,
                Error,
            >(ReactionDecision::RemoveOnly),
    {
        if self.closed {
            return Ok(ReactionDecision::Ignore);
        }
        let user = match reactor {
            None => {
                return Err(Error::NoCache);
            },
            Some(u) => u,
        };
        if user == current_user {
            return Ok(ReactionDecision::Ignore);
        }
        if let Some(owner) = self.owner {
            if owner != user {
                return Ok(ReactionDecision::RemoveOnly);
            }
        }
        proof {
            lemma_index_of(self@.controls, symbol@);
        }
        match find(&self.controls, symbol) {
            Some(i) => Ok(ReactionDecision::RemoveAndRun(self.controls[i].1)),
            None => Ok(ReactionDecision::RemoveOnly),
        }
    }

    /// Decides what a periodic tick at time `now` does: close a menu whose
    /// deadline has passed, or keep a sticky one last in its channel.
    pub fn update(&self, now: u64) -> (r: TickDecision)
        ensures
            r == tick_decision(self@, now),
    {
        if self.closed {
            TickDecision::Idle
        } else if now >= self.deadline {
            TickDecision::Close
        } else if self.sticky {
            TickDecision::CheckForNewer(self.message)
        } else {
            TickDecision::Idle
        }
    }

    /// Marks the menu closed: it handles nothing more and leaves the registry
    /// at the next sweep.
    pub fn close(&mut self)
        ensures
            final(self)@ == closed_view(old(self)@),
    {
        self.closed = true;
    }

    /// Moves the menu to the message `new_message_id` of the same channel,
    /// once the current page was sent there: its registry entry moves first,
    /// then the menu's identity. Returns the old identity, whose message is
    /// to be deleted. Fails, changing nothing, if the new identity is the
    /// current one, if the registry holds no entry under the current identity,
    /// or if it holds another one under the new.
    pub fn recreate(&mut self, registry: &mut EventDrivenMessageContainer, new_message_id: u64) -> (r:
        Result<MessageHandle, Error>)
        requires
            old(registry).wf(),
        ensures
            ({
                let from = old(self)@.message;
                let to = MessageHandle { channel_id: from.channel_id, message_id: new_message_id };
                &&& final(registry).wf()
                &&& final(registry).issued() == old(registry).issued()
                &&& from == to ==> r == Err::<MessageHandle, Error>(Error::AlreadyRegistered(to))
                &&& from != to && !old(registry)@.contains_key(from) ==> r == Err::<
                    MessageHandle,
                    Error,
                >(Error::EntryMissing(from))
                &&& from != to && old(registry)@.contains_key(from) && old(registry)@.contains_key(
                    to,
                ) ==> r == Err::<MessageHandle, Error>(Error::AlreadyRegistered(to))
                &&& (r is Ok <==> old(registry)@.contains_key(from) && !old(
                    registry,
                )@.contains_key(to))
                &&& r is Ok ==> r->Ok_0 == from && r->Ok_0 != to && final(registry)@ == apply_op(
                    old(registry)@,
                    RegistryOp::Rekey(from, to),
                ) && final(self)@ == (MenuView { message: to, ..old(self)@ })
                &&& r is Err ==> final(self)@ == old(self)@ && final(registry)@ == old(registry)@
            }),
    {
        let from = self.message;
        let to = MessageHandle { channel_id: from.channel_id, message_id: new_message_id };
        if new_message_id == from.message_id {
            return Err(Error::AlreadyRegistered(to));
        }
        match registry.rekey(from, to) {
            Ok(_) => {
                self.message = to;
                Ok(from)
            },
            Err(e) => Err(e),
        }
    }

    /// The reactions of the controls, in display order.
    pub fn control_symbols(&self) -> (r: Vec<String>)
        ensures
            r@.len() == self@.controls.len(),
            forall|i: int|
                0 <= i < r@.len() ==> #[trigger] r@[i]@ == self@.controls[display_order(
                    self@.controls,
                )[i]].0,
    {
        let order = self.control_order();
        proof {
            lemma_display_order_shape(self@.controls, self@.controls.len());
        }
        let mut out: Vec<String> = Vec::new();
        let mut j: usize = 0;
        while j < order.len()
            invariant
                j <= order@.len(),
                order@.map_values(|x: usize| x as int) == display_order(self@.controls),
                display_order(self@.controls).len() == self@.controls.len(),
                self@.controls.len() == self.controls@.len(),
                forall|i: int|
                    0 <= i < self@.controls.len() ==> 0 <= #[trigger] display_order(
                        self@.controls,
                    )[i] < self@.controls.len(),
                out@.len() == j,
                forall|i: int|
                    0 <= i < j ==> #[trigger] out@[i]@ == self@.controls[display_order(
                        self@.controls,
                    )[i]].0,
            decreases order@.len() - j,
        {
            assert(display_order(self@.controls)[j as int] == order@[j as int] as int);
            out.push(self.controls[order[j]].0.clone());
            j = j + 1;
        }
        out
    }
}

} // verus!

verus! {

impl<P> Menu<P> {
    /// The index of the page shown.
    pub fn current_page(&self) -> (r: usize)
        ensures
            r == self@.current_page,
    {
        self.current_page
    }

    /// The number of pages.
    pub fn page_count(&self) -> (r: usize)
        ensures
            r == self@.pages.len(),
    {
        self.pages.len()
    }

    /// The page shown.
    pub fn get_current_page(&self) -> (r: Result<&P, Error>)
        requires
            menu_wf(self@),
        ensures
            r is Ok && *r->Ok_0 == self@.pages[self@.current_page as int],
    {
        Ok(&self.pages[self.current_page])
    }

    /// The page at index `i`, if the menu has one.
    pub fn get_page(&self, i: usize) -> (r: Option<&P>)
        ensures
            r is Some <==> i < self@.pages.len(),
            r is Some ==> *r->Some_0 == self@.pages[i as int],
    {
        if i < self.pages.len() {
            Some(&self.pages[i])
        } else {
            None
        }
    }

    /// The identity of the menu's message.
    pub fn message(&self) -> (r: MessageHandle)
        ensures
            r == self@.message,
    {
        self.message
    }

    /// Whether the menu is closed and handles nothing more.
    pub fn is_frozen(&self) -> (r: bool)
        ensures
            r == self@.closed,
    {
        self.closed
    }

    /// Whether the help text is shown.
    pub fn is_help_shown(&self) -> (r: bool)
        ensures
            r == self@.help_shown,
    {
        self.help_shown
    }

    /// Whether the menu keeps itself last in its channel.
    pub fn is_sticky(&self) -> (r: bool)
        ensures
            r == self@.sticky,
    {
        self.sticky
    }

    /// The time after which the menu closes.
    pub fn deadline(&self) -> (r: u64)
        ensures
            r == self@.deadline,
    {
        self.deadline
    }

    /// The only user whose reactions run controls, if there is one.
    pub fn owner(&self) -> (r: Option<u64>)
        ensures
            r == self@.owner,
    {
        self.owner
    }
}

/// The abstract state of a menu builder.
pub ghost struct BuilderView<P> {
    pub pages: Seq<P>,
    pub start_page: nat,
    pub controls: Seq<(Seq<char>, ActionContainer)>,
    pub help: Seq<(Seq<char>, Seq<char>)>,
    pub timeout: u64,
    pub sticky: bool,
    pub owner: Option<u64>,
}

/// Collects the pages, controls and settings of a menu, then builds it.
pub struct MenuBuilder<P> {
    pages: Vec<P>,
    current_page: usize,
    controls: Vec<(String, ActionContainer)>,
    timeout: u64,
    sticky: bool,
    help_entries: Vec<(String, String)>,
    owner: Option<u64>,
}

impl<P> View for MenuBuilder<P> {
    type V = BuilderView<P>;

    closed spec fn view(&self) -> BuilderView<P> {
        BuilderView {
            pages: self.pages@,
            start_page: self.current_page as nat,
            controls: keys_view(self.controls@),
            help: texts_view(self.help_entries@),
            timeout: self.timeout,
            sticky: self.sticky,
            owner: self.owner,
        }
    }
}

/// No two controls or help entries of a builder are on one reaction.
pub open spec fn builder_wf<P>(v: BuilderView<P>) -> bool {
    keys_unique(v.controls) && keys_unique(v.help)
}

/// The controls after filing each item of `items` in turn.
pub open spec fn put_controls(
    cs: Seq<(Seq<char>, ActionContainer)>,
    items: Seq<(isize, Seq<char>, ControlAction)>,
) -> Seq<(Seq<char>, ActionContainer)>
    decreases items.len(),
{
    if items.len() == 0 {
        cs
    } else {
        let last = items.last();
        put(
            put_controls(cs, items.drop_last()),
            last.1,
            ActionContainer { action: last.2, position: last.0 },
        )
    }
}

impl<P> Default for MenuBuilder<P> {
    /// A builder with no pages, no controls, no owner, starting at page 0,
    /// not sticky, with the default timeout.
    fn default() -> (r: MenuBuilder<P>)
        ensures
            r@.pages.len() == 0,
            r@.start_page == 0,
            r@.controls.len() == 0,
            r@.help.len() == 0,
            r@.timeout == DEFAULT_TIMEOUT_MS,
            !r@.sticky,
            r@.owner is None,
    {
        MenuBuilder {
            pages: Vec::new(),
            current_page: 0,
            controls: Vec::new(),
            timeout: DEFAULT_TIMEOUT_MS,
            sticky: false,
            help_entries: Vec::new(),
            owner: None,
        }
    }
}

impl<P> MenuBuilder<P> {
    /// A builder for a paginated menu: previous page, close and next page
    /// controls, at positions 0, 1 and 2, each with a help entry.
    pub fn new_paginator() -> (r: MenuBuilder<P>)
        ensures
            builder_wf(r@),
            r@.pages.len() == 0,
            r@.start_page == 0,
            r@.controls == seq![
                (PREVIOUS_PAGE_EMOJI@, (ActionContainer { action: ControlAction::PreviousPage, position: 0 })),
                (CLOSE_MENU_EMOJI@, (ActionContainer { action: ControlAction::CloseMenu, position: 1 })),
                (NEXT_PAGE_EMOJI@, (ActionContainer { action: ControlAction::NextPage, position: 2 })),
            ],
            r@.help == seq![
                (PREVIOUS_PAGE_EMOJI@, "Displays the previous page"@),
                (CLOSE_MENU_EMOJI@, "Closes the menu buttons"@),
                (NEXT_PAGE_EMOJI@, "Displays the next page"@),
            ],
            r@.timeout == DEFAULT_TIMEOUT_MS,
            !r@.sticky,
            r@.owner is None,
    {
        proof {
            reveal_strlit("⬅️");
            reveal_strlit("❌");
            reveal_strlit("➡️");
        }
        let controls = vec![
            (String::from_str(PREVIOUS_PAGE_EMOJI), ActionContainer::new(0, ControlAction::PreviousPage)),
            (String::from_str(CLOSE_MENU_EMOJI), ActionContainer::new(1, ControlAction::CloseMenu)),
            (String::from_str(NEXT_PAGE_EMOJI), ActionContainer::new(2, ControlAction::NextPage)),
        ];
        let help_entries = vec![
            (String::from_str(PREVIOUS_PAGE_EMOJI), String::from_str("Displays the previous page")),
            (String::from_str(CLOSE_MENU_EMOJI), String::from_str("Closes the menu buttons")),
            (String::from_str(NEXT_PAGE_EMOJI), String::from_str("Displays the next page")),
        ];
        let b = MenuBuilder {
            pages: Vec::new(),
            current_page: 0,
            controls,
            timeout: DEFAULT_TIMEOUT_MS,
            sticky: false,
            help_entries,
            owner: None,
        };
        proof {
            assert(PREVIOUS_PAGE_EMOJI@[0] != CLOSE_MENU_EMOJI@[0]);
            assert(PREVIOUS_PAGE_EMOJI@[0] != NEXT_PAGE_EMOJI@[0]);
            assert(CLOSE_MENU_EMOJI@[0] != NEXT_PAGE_EMOJI@[0]);
            assert(b@.controls =~= seq![
                (PREVIOUS_PAGE_EMOJI@, (ActionContainer { action: ControlAction::PreviousPage, position: 0 })),
                (CLOSE_MENU_EMOJI@, (ActionContainer { action: ControlAction::CloseMenu, position: 1 })),
                (NEXT_PAGE_EMOJI@, (ActionContainer { action: ControlAction::NextPage, position: 2 })),
            ]);
            assert(b@.help =~= seq![
                (PREVIOUS_PAGE_EMOJI@, "Displays the previous page"@),
                (CLOSE_MENU_EMOJI@, "Closes the menu buttons"@),
                (NEXT_PAGE_EMOJI@, "Displays the next page"@),
            ]);
        }
        b
    }

    /// Adds a page after the others.
    pub fn add_page(self, page: P) -> (r: MenuBuilder<P>)
        ensures
            r@ == (BuilderView { pages: self@.pages.push(page), ..self@ }),
    {
        let mut b = self;
        b.pages.push(page);
        b
    }

    /// Adds pages after the others, in order.
    pub fn add_pages(self, pages: Vec<P>) -> (r: MenuBuilder<P>)
        ensures
            r@ == (BuilderView { pages: self@.pages + pages@, ..self@ }),
    {
        let mut b = self;
        let mut more = pages;
        b.pages.append(&mut more);
        b
    }

    /// Adds a control on the reaction `emoji`, replacing any control on it.
    pub fn add_control(self, position: isize, emoji: &str, action: ControlAction) -> (r:
        MenuBuilder<P>)
        ensures
            r@ == (BuilderView {
                controls: put(self@.controls, emoji@, ActionContainer { action, position }),
                ..self@
            }),
            builder_wf(self@) ==> builder_wf(r@),
    {
        let mut b = self;
        proof {
            if keys_unique(self@.controls) {
                lemma_put_unique(self@.controls, emoji@, ActionContainer { action, position });
            }
        }
        put_entry(&mut b.controls, String::from_str(emoji), ActionContainer { action, position });
        b
    }

    /// Adds controls in turn, each replacing any control on its reaction.
    pub fn add_controls(self, controls: Vec<(isize, String, ControlAction)>) -> (r: MenuBuilder<P>)
        ensures
            r@ == (BuilderView {
                controls: put_controls(
                    self@.controls,
                    controls@.map_values(|c: (isize, String, ControlAction)| (c.0, c.1@, c.2)),
                ),
                ..self@
            }),
            builder_wf(self@) ==> builder_wf(r@),
    {
        let mut b = self;
        let ghost items = controls@.map_values(
            |c: (isize, String, ControlAction)| (c.0, c.1@, c.2),
        );
        let mut i: usize = 0;
        while i < controls.len()
            invariant
                i <= controls@.len(),
                items == controls@.map_values(|c: (isize, String, ControlAction)| (c.0, c.1@, c.2)),
                b@ == (BuilderView {
                    controls: put_controls(self@.controls, items.subrange(0, i as int)),
                    ..self@
                }),
                builder_wf(self@) ==> builder_wf(b@),
            decreases controls@.len() - i,
        {
            let position = controls[i].0;
            let emoji = controls[i].1.clone();
            let action = controls[i].2;
            assert(items.subrange(0, i + 1).drop_last() == items.subrange(0, i as int));
            assert(items.subrange(0, i + 1).last() == items[i as int]);
            proof {
                if builder_wf(self@) {
                    lemma_put_unique(b@.controls, emoji@, ActionContainer { action, position });
                }
            }
            put_entry(&mut b.controls, emoji, ActionContainer { action, position });
            i = i + 1;
        }
        assert(items.subrange(0, controls@.len() as int) == items);
        b
    }

    /// Sets how long the menu stays open, in milliseconds.
    pub fn timeout(self, timeout: u64) -> (r: MenuBuilder<P>)
        ensures
            r@ == (BuilderView { timeout, ..self@ }),
    {
        let mut b = self;
        b.timeout = timeout;
        b
    }

    /// Sets the page shown first.
    pub fn start_page(self, page: usize) -> (r: MenuBuilder<P>)
        ensures
            r@ == (BuilderView { start_page: page as nat, ..self@ }),
    {
        let mut b = self;
        b.current_page = page;
        b
    }

    /// Sets whether the menu keeps itself last in its channel.
    pub fn sticky(self, value: bool) -> (r: MenuBuilder<P>)
        ensures
            r@ == (BuilderView { sticky: value, ..self@ }),
    {
        let mut b = self;
        b.sticky = value;
        b
    }

    /// Adds the help line `help` for the control on `button`, replacing any
    /// earlier one.
    pub fn add_help(self, button: &str, help: &str) -> (r: MenuBuilder<P>)
        ensures
            r@ == (BuilderView { help: put(self@.help, button@, help@), ..self@ }),
            builder_wf(self@) ==> builder_wf(r@),
    {
        let mut b = self;
        proof {
            if keys_unique(self@.help) {
                lemma_put_unique(self@.help, button@, help@);
            }
        }
        put_text(&mut b.help_entries, String::from_str(button), String::from_str(help));
        b
    }

    /// Adds the control that shows and hides the help text, at the last
    /// display position.
    pub fn show_help(self) -> (r: MenuBuilder<P>)
        ensures
            r@ == (BuilderView {
                controls: put(
                    self@.controls,
                    HELP_EMOJI@,
                    ActionContainer { action: ControlAction::ToggleHelp, position: HELP_POSITION },
                ),
                ..self@
            }),
            builder_wf(self@) ==> builder_wf(r@),
    {
        self.add_control(HELP_POSITION, HELP_EMOJI, ControlAction::ToggleHelp)
    }

    /// Lets only `user_id`'s reactions run controls.
    pub fn owner(self, user_id: u64) -> (r: MenuBuilder<P>)
        ensures
            r@ == (BuilderView { owner: Some(user_id), ..self@ }),
    {
        let mut b = self;
        b.owner = Some(user_id);
        b
    }

    /// The page to send first; fails if there is no page at the start index.
    pub fn first_page(&self) -> (r: Result<&P, Error>)
        ensures
            self@.start_page < self@.pages.len() ==> r is Ok && *r->Ok_0 == self@.pages[self@.start_page as int],
            self@.start_page >= self@.pages.len() ==> r == Err::<&P, Error>(
                Error::PageNotFound(self@.start_page as usize),
            ),
    {
        if self.current_page < self.pages.len() {
            Ok(&self.pages[self.current_page])
        } else {
            Err(Error::PageNotFound(self.current_page))
        }
    }

    /// Builds the menu on the message `message`, sent at time `now`, and
    /// files it in the registry. Fails if there is no page at the start
    /// index, or if the registry refuses the identity; the registry is then
    /// unchanged. Returns the menu and its listener key.
    pub fn build(self, registry: &mut EventDrivenMessageContainer, now: u64, message: MessageHandle) -> (r:
        Result<(Menu<P>, u64), Error>)
        requires
            old(registry).wf(),
            builder_wf(self@),
        ensures
            final(registry).wf(),
            self@.start_page >= self@.pages.len() ==> r == Err::<(Menu<P>, u64), Error>(
                Error::PageNotFound(self@.start_page as usize),
            ) && final(registry)@ == old(registry)@ && final(registry).issued() == old(
                registry,
            ).issued(),
            self@.start_page < self@.pages.len() && old(registry)@.contains_key(message) ==> r
                == Err::<(Menu<P>, u64), Error>(Error::AlreadyRegistered(message)),
            self@.start_page < self@.pages.len() && !old(registry)@.contains_key(message)
                && old(registry).issued() == u64::MAX ==> r == Err::<(Menu<P>, u64), Error>(
                Error::KeysExhausted,
            ),
            r is Ok <==> self@.start_page < self@.pages.len() && !old(registry)@.contains_key(
                message,
            ) && old(registry).issued() < u64::MAX,
            r is Ok ==> ({
                let (menu, key) = r->Ok_0;
                &&& menu_wf(menu@)
                &&& menu@ == (MenuView {
                    message,
                    pages: self@.pages,
                    current_page: self@.start_page,
                    controls: self@.controls,
                    help: self@.help,
                    owner: self@.owner,
                    deadline: now.saturating_add(self@.timeout),
                    sticky: self@.sticky,
                    closed: false,
                    help_shown: false,
                })
                &&& key == old(registry).issued()
                &&& final(registry)@ == old(registry)@.insert(message, key)
            }),
            r is Err ==> final(registry)@ == old(registry)@,
    {
        if self.current_page >= self.pages.len() {
            return Err(Error::PageNotFound(self.current_page));
        }
        let key = match registry.insert(message) {
            Ok(k) => k,
            Err(e) => {
                return Err(e);
            },
        };
        let menu = Menu {
            message,
            pages: self.pages,
            current_page: self.current_page,
            controls: self.controls,
            help_entries: self.help_entries,
            owner: self.owner,
            deadline: now.saturating_add(self.timeout),
            sticky: self.sticky,
            closed: false,
            help_shown: false,
        };
        Ok((menu, key))
    }
}

} // verus!

verus! {

/// An open sticky menu before its deadline asks, at a tick, to look for newer
/// messages; relocating it to a new message that no listener holds then files
/// its key under the new identity and none under the old.
pub proof fn lemma_sticky_menu_relocates<P>(
    v: MenuView<P>,
    now: u64,
    m: Map<MessageHandle, u64>,
    new_message_id: u64,
)
    requires
        !v.closed,
        now < v.deadline,
        v.sticky,
        m.contains_key(v.message),
        new_message_id != v.message.message_id,
        !m.contains_key(
            MessageHandle { channel_id: v.message.channel_id, message_id: new_message_id },
        ),
    ensures
        tick_decision(v, now) == TickDecision::CheckForNewer(v.message),
        ({
            let to = MessageHandle { channel_id: v.message.channel_id, message_id: new_message_id };
            let after = apply_op(m, RegistryOp::Rekey(v.message, to));
            &&& after.contains_key(to)
            &&& after[to] == m[v.message]
            &&& !after.contains_key(v.message)
        }),
{
}

/// An open menu whose deadline has passed asks, at a tick, to be closed; once
/// closed it reports itself finished, and the sweep pass whose snapshot lists
/// it takes its entry out of the registry.
pub proof fn lemma_expired_menu_retired<P>(
    v: MenuView<P>,
    now: u64,
    m: Map<MessageHandle, u64>,
    snapshot: Seq<(MessageHandle, u64)>,
    finished: Seq<bool>,
    i: int,
)
    requires
        !v.closed,
        now >= v.deadline,
        snapshot.len() == finished.len(),
        0 <= i < snapshot.len(),
        snapshot[i].0 == v.message,
        finished[i] == closed_view(v).closed,
    ensures
        tick_decision(v, now) == TickDecision::Close,
        closed_view(v).closed,
        closed_view(v).current_page == v.current_page,
        closed_view(v).pages == v.pages,
        !drain(m, finished_of(snapshot, finished, snapshot.len())).0.contains_key(v.message),
{
    lemma_sweep_retires_finished(m, snapshot, finished, i);
}

} // verus!
