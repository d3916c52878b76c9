//! The open-script tab manager: an actor that owns the ordered collection of
//! open script buffers and answers every request with the notifications it
//! raises. The surrounding application forwards user intent as a
//! [`ScriptAction`], performs the effects named by the returned
//! [`ScriptEvent`]s (running observer callbacks, reading a file off the
//! processing thread, destroying the window), and never touches the
//! collection itself.
//!
//! The behaviour of the manager is captured by the specification-level
//! transition function [`step`] over [`ManagerModel`]; the executable
//! [`OpenedScripts::process`] is proved to follow it exactly.

use vstd::prelude::*;
use vstd::string::*;

verus! {

/// Largest number of concurrently open tabs. Requests to open or create a
/// tab beyond this bound are silently ignored.
pub const MAX_OPEN_TABS: usize = 16;

// ---------------------------------------------------------------------------
// Specification-level model
// ---------------------------------------------------------------------------

/// Mathematical model of one open tab.
#[verifier::ext_equal]
pub struct TabModel {
    pub name: Seq<char>,
    pub path: Option<Seq<char>>,
    pub content: Option<Seq<char>>,
    pub saved: bool,
    pub index: nat,
}

/// Mathematical model of the whole manager: the ordered tab collection, the
/// active selection, and whether a window-close request is waiting on a
/// confirmation.
#[verifier::ext_equal]
pub struct ManagerModel {
    pub tabs: Seq<TabModel>,
    pub selected: Option<nat>,
    pub close_deferred: bool,
}

impl ManagerModel {
    /// The state of a freshly created manager: no tabs, no selection, no
    /// pending window close.
    pub open spec fn init() -> ManagerModel {
        ManagerModel { tabs: Seq::empty(), selected: None, close_deferred: false }
    }
}

/// Model of a request handed to the manager.
#[verifier::ext_equal]
pub enum ActionModel {
    OpenRequest(Seq<char>),
    OpenSuccess(TabModel),
    OpenFailure(Seq<char>),
    CloseRequest(nat, bool),
    CloseConfirm(nat),
    SaveRequest(nat),
    Opened(Seq<char>),
    Closed(Seq<char>),
    NewRequest,
    ActiveTextChanged(Option<Seq<char>>),
    WindowCloseRequest,
    SetSaved(nat, bool),
    Select(Option<nat>),
}

/// Model of one notification or effect raised while a request is processed.
#[verifier::ext_equal]
pub enum EventModel {
    /// A fresh untitled tab was appended.
    NewTab(TabModel),
    /// A tab built from a successful file read was appended.
    OpenedTab(TabModel),
    /// The tab at the first position was removed; the second field is the
    /// count of tabs that remain.
    TabClosed(nat, nat),
    /// Closing this unsaved tab needs the user's confirmation.
    CloseConfirm(TabModel),
    /// The tab at this position is now saved.
    FilePersisted(nat),
    /// The tab at this position now has unsaved changes.
    FileChanged(nat),
    /// The active selection changed.
    SelectionChanged(Option<nat>),
    /// Reading a script file failed; the payload is the error message.
    OpenFailed(Seq<char>),
    /// The file at this path should be read off the processing thread; the
    /// outcome comes back as an `OpenSuccess` or `OpenFailure` request.
    FileReadRequested(Seq<char>),
    /// The application window should be destroyed now.
    WindowDestroyed,
}

/// Well-formedness of a manager state: the collection is within capacity and
/// every tab's `index` field equals its position in the collection.
pub open spec fn wf(s: ManagerModel) -> bool {
    &&& s.tabs.len() <= MAX_OPEN_TABS
    &&& forall|i: int| 0 <= i < s.tabs.len() ==> (#[trigger] s.tabs[i].index) == i
}

/// Requests that address a tab by position must stay within the collection;
/// an out-of-range position is a programming error, not a recoverable one.
pub open spec fn action_allowed(s: ManagerModel, a: ActionModel) -> bool {
    match a {
        ActionModel::CloseRequest(ix, _) => ix < s.tabs.len(),
        ActionModel::SetSaved(ix, _) => ix < s.tabs.len(),
        _ => true,
    }
}

// ---------------------------------------------------------------------------
// Default tab names
// ---------------------------------------------------------------------------

/// The decimal digit `d` as a character.
pub open spec fn digit_char(d: nat) -> char {
    if d == 0 { '0' }
    else if d == 1 { '1' }
    else if d == 2 { '2' }
    else if d == 3 { '3' }
    else if d == 4 { '4' }
    else if d == 5 { '5' }
    else if d == 6 { '6' }
    else if d == 7 { '7' }
    else if d == 8 { '8' }
    else { '9' }
}

/// The usual decimal notation of `n`, most significant digit first.
pub open spec fn decimal_chars(n: nat) -> Seq<char>
    decreases n,
{
    if n < 10 {
        seq![digit_char(n)]
    } else {
        decimal_chars(n / 10).push(digit_char(n % 10))
    }
}

/// The default display name of the `n`-th untitled tab.
pub open spec fn untitled_name(n: nat) -> Seq<char> {
    "Untitled "@ + decimal_chars(n) + ".sql"@
}

/// The model of the fresh tab appended by a `NewRequest` when `count` tabs
/// are already open.
pub open spec fn fresh_tab(count: nat) -> TabModel {
    TabModel {
        name: untitled_name(count + 1),
        path: None,
        content: None,
        saved: true,
        index: count,
    }
}

// ---------------------------------------------------------------------------
// The transition function
// ---------------------------------------------------------------------------

/// `tabs` with the tab at `ix` removed and every later tab shifted one
/// position down, its `index` field following it.
pub open spec fn remove_tab(tabs: Seq<TabModel>, ix: int) -> Seq<TabModel> {
    Seq::new(
        (tabs.len() - 1) as nat,
        |j: int|
            if j < ix {
                tabs[j]
            } else {
                TabModel { index: j as nat, ..tabs[j + 1] }
            },
    )
}

/// Holds when some tab has unsaved changes.
pub open spec fn has_dirty(tabs: Seq<TabModel>) -> bool {
    exists|i: int| 0 <= i < tabs.len() && !tabs[i].saved
}

/// Holds when `i` is the position of the first tab with unsaved changes.
pub open spec fn is_first_dirty(tabs: Seq<TabModel>, i: int) -> bool {
    &&& 0 <= i < tabs.len()
    &&& !tabs[i].saved
    &&& forall|j: int| 0 <= j < i ==> (#[trigger] tabs[j]).saved
}

/// Effect of a `NewRequest`: appends a fresh untitled, saved tab, unless the
/// collection is at capacity, in which case nothing happens.
pub open spec fn step_new(s: ManagerModel) -> (ManagerModel, Seq<EventModel>) {
    if s.tabs.len() >= MAX_OPEN_TABS {
        (s, Seq::empty())
    } else {
        let t = fresh_tab(s.tabs.len());
        (
            ManagerModel { tabs: s.tabs.push(t), ..s },
            seq![EventModel::NewTab(t)],
        )
    }
}

/// Effect of an `OpenRequest`: asks for the file to be read off the
/// processing thread, unless the collection is at capacity, in which case
/// nothing happens.
pub open spec fn step_open_request(s: ManagerModel, path: Seq<char>) -> (
    ManagerModel,
    Seq<EventModel>,
) {
    if s.tabs.len() >= MAX_OPEN_TABS {
        (s, Seq::empty())
    } else {
        (s, seq![EventModel::FileReadRequested(path)])
    }
}

/// Effect of an `OpenSuccess`: appends a saved tab holding the name, path and
/// content that the file read produced, unless the collection is at capacity,
/// in which case nothing happens.
pub open spec fn step_open_success(s: ManagerModel, tab: TabModel) -> (
    ManagerModel,
    Seq<EventModel>,
) {
    if s.tabs.len() >= MAX_OPEN_TABS {
        (s, Seq::empty())
    } else {
        let t = TabModel { saved: true, index: s.tabs.len(), ..tab };
        (
            ManagerModel { tabs: s.tabs.push(t), ..s },
            seq![EventModel::OpenedTab(t)],
        )
    }
}

/// Effect of a `CloseRequest`. A forced close, or a close of a saved tab,
/// removes the tab and reports the removed position together with the new
/// count; a forced close additionally destroys the window when a window
/// close is pending. Closing an unsaved tab without force removes nothing
/// and instead asks for the user's confirmation, handing over the tab.
pub open spec fn step_close(s: ManagerModel, ix: int, force: bool) -> (
    ManagerModel,
    Seq<EventModel>,
) {
    if force {
        let evs = seq![EventModel::TabClosed(ix as nat, (s.tabs.len() - 1) as nat)];
        (
            ManagerModel { tabs: remove_tab(s.tabs, ix), ..s },
            if s.close_deferred { evs.push(EventModel::WindowDestroyed) } else { evs },
        )
    } else if s.tabs[ix].saved {
        (
            ManagerModel { tabs: remove_tab(s.tabs, ix), ..s },
            seq![EventModel::TabClosed(ix as nat, (s.tabs.len() - 1) as nat)],
        )
    } else {
        (s, seq![EventModel::CloseConfirm(s.tabs[ix])])
    }
}

/// Effect of a `SetSaved`: updates the tab's dirty flag and notifies the
/// persisted observers when the tab is now saved, the changed observers
/// otherwise.
pub open spec fn step_set_saved(s: ManagerModel, ix: int, saved: bool) -> (
    ManagerModel,
    Seq<EventModel>,
) {
    (
        ManagerModel {
            tabs: s.tabs.update(ix, TabModel { saved: saved, ..s.tabs[ix] }),
            ..s
        },
        if saved {
            seq![EventModel::FilePersisted(ix as nat)]
        } else {
            seq![EventModel::FileChanged(ix as nat)]
        },
    )
}

/// Effect of a `WindowCloseRequest`: when every tab is saved the window is
/// destroyed at once; otherwise the first unsaved tab is handed to the
/// confirmation observers and the destruction is deferred.
pub open spec fn step_window_close(s: ManagerModel) -> (ManagerModel, Seq<EventModel>) {
    if has_dirty(s.tabs) {
        let i = choose|i: int| is_first_dirty(s.tabs, i);
        (
            ManagerModel { close_deferred: true, ..s },
            seq![EventModel::CloseConfirm(s.tabs[i])],
        )
    } else {
        (s, seq![EventModel::WindowDestroyed])
    }
}

/// The manager's transition function: the state after a request, and the
/// notifications raised while it was processed, in order. Requests that the
/// manager records nothing about (`CloseConfirm`, `SaveRequest`, `Opened`,
/// `Closed`, `ActiveTextChanged`) leave the state unchanged and raise
/// nothing.
pub open spec fn step(s: ManagerModel, a: ActionModel) -> (ManagerModel, Seq<EventModel>) {
    match a {
        ActionModel::NewRequest => step_new(s),
        ActionModel::OpenRequest(path) => step_open_request(s, path),
        ActionModel::OpenSuccess(tab) => step_open_success(s, tab),
        ActionModel::OpenFailure(msg) => (s, seq![EventModel::OpenFailed(msg)]),
        ActionModel::CloseRequest(ix, force) => step_close(s, ix as int, force),
        ActionModel::SetSaved(ix, saved) => step_set_saved(s, ix as int, saved),
        ActionModel::Select(sel) => (
            ManagerModel { selected: sel, ..s },
            seq![EventModel::SelectionChanged(sel)],
        ),
        ActionModel::WindowCloseRequest => step_window_close(s),
        _ => (s, Seq::empty()),
    }
}

/// Every request preserves well-formedness: the collection stays within
/// capacity, and after any removal the tabs that moved down are reindexed, so
/// each tab's `index` field always equals its position.
pub proof fn lemma_step_preserves_wf(s: ManagerModel, a: ActionModel)
    requires
        wf(s),
        action_allowed(s, a),
    ensures
        wf(step(s, a).0),
{
    let s1 = step(s, a).0;
    match a {
        ActionModel::NewRequest => {
            if s.tabs.len() < MAX_OPEN_TABS {
                assert forall|i: int| 0 <= i < s1.tabs.len() implies (#[trigger] s1.tabs[i].index)
                    == i by {
                    if i < s.tabs.len() {
                        assert(s.tabs[i].index == i);
                    }
                }
            }
        },
        ActionModel::OpenSuccess(_) => {
            if s.tabs.len() < MAX_OPEN_TABS {
                assert forall|i: int| 0 <= i < s1.tabs.len() implies (#[trigger] s1.tabs[i].index)
                    == i by {
                    if i < s.tabs.len() {
                        assert(s.tabs[i].index == i);
                    }
                }
            }
        },
        ActionModel::CloseRequest(ix, force) => {
            if force || s.tabs[ix as int].saved {
                assert forall|i: int| 0 <= i < s1.tabs.len() implies (#[trigger] s1.tabs[i].index)
                    == i by {
                    if i < ix as int {
                        assert(s.tabs[i].index == i);
                    }
                }
            }
        },
        ActionModel::SetSaved(ix, _) => {
            assert forall|i: int| 0 <= i < s1.tabs.len() implies (#[trigger] s1.tabs[i].index)
                == i by {
                assert(s.tabs[i].index == i);
            }
        },
        _ => {},
    }
}

// ---------------------------------------------------------------------------
// Laws of the transition function
// ---------------------------------------------------------------------------

/// The state reached from a fresh manager by `n` consecutive `NewRequest`s.
pub open spec fn after_new_requests(n: nat) -> ManagerModel
    decreases n,
{
    if n == 0 {
        ManagerModel::init()
    } else {
        step(after_new_requests((n - 1) as nat), ActionModel::NewRequest).0
    }
}

/// Any run of `NewRequest`s on a fresh manager opens exactly one tab per
/// request up to the capacity bound; once the bound is reached a further
/// request is a no-op that changes nothing and raises nothing.
pub proof fn lemma_new_requests_count(n: nat)
    ensures
        after_new_requests(n).tabs.len() == if n <= MAX_OPEN_TABS {
            n
        } else {
            MAX_OPEN_TABS as nat
        },
        n >= MAX_OPEN_TABS ==> step(after_new_requests(n), ActionModel::NewRequest) == (
            after_new_requests(n),
            Seq::<EventModel>::empty(),
        ),
    decreases n,
{
    if n > 0 {
        lemma_new_requests_count((n - 1) as nat);
    }
}

/// Closing a saved tab at position `i` removes exactly that tab: every
/// earlier tab stays in place, every later tab moves one position down and
/// is reindexed, and the single notification carries the removed position
/// together with the count of tabs that remain.
pub proof fn lemma_close_saved_removes(s: ManagerModel, i: nat)
    requires
        i < s.tabs.len(),
        s.tabs[i as int].saved,
    ensures
        step(s, ActionModel::CloseRequest(i, false)).0.tabs.len() == s.tabs.len() - 1,
        forall|j: int|
            0 <= j < i ==> step(s, ActionModel::CloseRequest(i, false)).0.tabs[j] == s.tabs[j],
        forall|j: int|
            i <= j < s.tabs.len() - 1 ==> step(s, ActionModel::CloseRequest(i, false)).0.tabs[j]
                == (TabModel { index: j as nat, ..s.tabs[j + 1] }),
        step(s, ActionModel::CloseRequest(i, false)).1 == seq![
            EventModel::TabClosed(i, (s.tabs.len() - 1) as nat),
        ],
{
    assert(step(s, ActionModel::CloseRequest(i, false)).1 =~~= seq![
        EventModel::TabClosed(i, (s.tabs.len() - 1) as nat),
    ]);
}

/// Closing an unsaved tab without force removes nothing: the state is
/// unchanged and the single notification asks for confirmation, carrying
/// that tab's data.
pub proof fn lemma_close_dirty_confirms(s: ManagerModel, i: nat)
    requires
        i < s.tabs.len(),
        !s.tabs[i as int].saved,
    ensures
        step(s, ActionModel::CloseRequest(i, false)).0 == s,
        step(s, ActionModel::CloseRequest(i, false)).1 == seq![
            EventModel::CloseConfirm(s.tabs[i as int]),
        ],
{
    assert(step(s, ActionModel::CloseRequest(i, false)).1 =~~= seq![
        EventModel::CloseConfirm(s.tabs[i as int]),
    ]);
}

/// Marking a tab saved and then unsaved again raises exactly one persisted
/// notification followed by exactly one changed notification, in that
/// order.
pub proof fn lemma_set_saved_then_changed(s: ManagerModel, i: nat)
    requires
        i < s.tabs.len(),
    ensures
        ({
            let (s1, e1) = step(s, ActionModel::SetSaved(i, true));
            let (s2, e2) = step(s1, ActionModel::SetSaved(i, false));
            e1 + e2 == seq![EventModel::FilePersisted(i), EventModel::FileChanged(i)]
        }),
{
    let (s1, e1) = step(s, ActionModel::SetSaved(i, true));
    let (s2, e2) = step(s1, ActionModel::SetSaved(i, false));
    assert(e1 + e2 =~~= seq![EventModel::FilePersisted(i), EventModel::FileChanged(i)]);
}

/// A window-close request finding every tab saved destroys the window at
/// once: the state is unchanged and the single effect is the destruction.
pub proof fn lemma_window_close_all_saved(s: ManagerModel)
    requires
        forall|i: int| 0 <= i < s.tabs.len() ==> (#[trigger] s.tabs[i]).saved,
    ensures
        step(s, ActionModel::WindowCloseRequest).0 == s,
        step(s, ActionModel::WindowCloseRequest).1 == seq![EventModel::WindowDestroyed],
{
    assert(!has_dirty(s.tabs));
    assert(step(s, ActionModel::WindowCloseRequest).1 =~~= seq![EventModel::WindowDestroyed]);
}

/// A window-close request finding an unsaved tab destroys nothing: the tabs
/// are untouched, the destruction is deferred, and the single notification
/// asks for confirmation, carrying the first unsaved tab.
pub proof fn lemma_window_close_some_dirty(s: ManagerModel, i: int)
    requires
        is_first_dirty(s.tabs, i),
    ensures
        step(s, ActionModel::WindowCloseRequest).0 == (ManagerModel {
            close_deferred: true,
            ..s
        }),
        step(s, ActionModel::WindowCloseRequest).1 == seq![EventModel::CloseConfirm(s.tabs[i])],
{
    assert(has_dirty(s.tabs));
    let k = choose|k: int| is_first_dirty(s.tabs, k);
    assert(is_first_dirty(s.tabs, k));
    assert(k == i) by {
        if k < i {
            assert(s.tabs[k].saved);
        }
        if i < k {
            assert(s.tabs[i].saved);
        }
    };
    assert(step(s, ActionModel::WindowCloseRequest).1 =~~= seq![
        EventModel::CloseConfirm(s.tabs[i]),
    ]);
}

/// The decimal digit `d` as a one-character string.
fn digit_string(d: usize) -> (r: String)
    requires
        d < 10,
    ensures
        r@ == seq![digit_char(d as nat)],
{
    let s: &str = if d == 0 { "0" }
    else if d == 1 { "1" }
    else if d == 2 { "2" }
    else if d == 3 { "3" }
    else if d == 4 { "4" }
    else if d == 5 { "5" }
    else if d == 6 { "6" }
    else if d == 7 { "7" }
    else if d == 8 { "8" }
    else { "9" };
    proof {
        reveal_strlit("0");
        reveal_strlit("1");
        reveal_strlit("2");
        reveal_strlit("3");
        reveal_strlit("4");
        reveal_strlit("5");
        reveal_strlit("6");
        reveal_strlit("7");
        reveal_strlit("8");
        reveal_strlit("9");
        assert(s@ =~= seq![digit_char(d as nat)]);
    }
    String::from_str(s)
}

/// The usual decimal notation of `n`.
fn decimal_string(n: usize) -> (r: String)
    ensures
        r@ == decimal_chars(n as nat),
    decreases n,
{
    if n < 10 {
        digit_string(n)
    } else {
        let mut s = decimal_string(n / 10);
        let last = digit_string(n % 10);
        s.append(last.as_str());
        proof {
            assert(s@ =~= decimal_chars(n as nat));
        }
        s
    }
}

/// The default display name of the `n`-th untitled tab, built as the spec
/// function [`untitled_name`] describes.
pub fn untitled_label(n: usize) -> (r: String)
    ensures
        r@ == untitled_name(n as nat),
{
    let mut s = String::from_str("Untitled ");
    let digits = decimal_string(n);
    s.append(digits.as_str());
    s.append(".sql");
    proof {
        assert(s@ =~= untitled_name(n as nat));
    }
    s
}

// ---------------------------------------------------------------------------
// Executable data types
// ---------------------------------------------------------------------------

/// One open script tab: its display name, the backing file path and the
/// in-memory content when there are any, the saved flag, and its position in
/// the manager's collection.
pub struct OpenedFile {
    pub name: String,
    pub path: Option<String>,
    pub content: Option<String>,
    pub saved: bool,
    pub index: usize,
}

impl View for OpenedFile {
    type V = TabModel;

    open spec fn view(&self) -> TabModel {
        TabModel {
            name: self.name@,
            path: match self.path {
                Some(p) => Some(p@),
                None => None,
            },
            content: match self.content {
                Some(c) => Some(c@),
                None => None,
            },
            saved: self.saved,
            index: self.index as nat,
        }
    }
}

impl OpenedFile {
    /// A copy of this tab, field by field.
    pub fn duplicate(&self) -> (r: OpenedFile)
        ensures
            r@ == self@,
    {
        OpenedFile {
            name: self.name.clone(),
            path: match &self.path {
                Some(p) => Some(p.clone()),
                None => None,
            },
            content: match &self.content {
                Some(c) => Some(c.clone()),
                None => None,
            },
            saved: self.saved,
            index: self.index,
        }
    }
}

/// A request to the manager.
pub enum ScriptAction {
    /// Read the file at this path and open it as a tab.
    OpenRequest(String),
    /// A file read finished; open its outcome as a tab.
    OpenSuccess(OpenedFile),
    /// A file read failed with this message.
    OpenFailure(String),
    /// Close the tab at the first position; the second field forces the
    /// close past the unsaved-changes confirmation.
    CloseRequest(usize, bool),
    CloseConfirm(usize),
    SaveRequest(usize),
    Opened(String),
    Closed(String),
    /// Append a fresh untitled tab.
    NewRequest,
    ActiveTextChanged(Option<String>),
    /// The user asked to close the application window.
    WindowCloseRequest,
    /// Record whether the tab at this position is saved.
    SetSaved(usize, bool),
    /// Change the active selection.
    Select(Option<usize>),
}

impl View for ScriptAction {
    type V = ActionModel;

    open spec fn view(&self) -> ActionModel {
        match self {
            ScriptAction::OpenRequest(path) => ActionModel::OpenRequest(path@),
            ScriptAction::OpenSuccess(file) => ActionModel::OpenSuccess(file@),
            ScriptAction::OpenFailure(msg) => ActionModel::OpenFailure(msg@),
            ScriptAction::CloseRequest(ix, force) => ActionModel::CloseRequest(
                *ix as nat,
                *force,
            ),
            ScriptAction::CloseConfirm(ix) => ActionModel::CloseConfirm(*ix as nat),
            ScriptAction::SaveRequest(ix) => ActionModel::SaveRequest(*ix as nat),
            ScriptAction::Opened(name) => ActionModel::Opened(name@),
            ScriptAction::Closed(name) => ActionModel::Closed(name@),
            ScriptAction::NewRequest => ActionModel::NewRequest,
            ScriptAction::ActiveTextChanged(opt) => ActionModel::ActiveTextChanged(
                match opt {
                    Some(s) => Some(s@),
                    None => None,
                },
            ),
            ScriptAction::WindowCloseRequest => ActionModel::WindowCloseRequest,
            ScriptAction::SetSaved(ix, saved) => ActionModel::SetSaved(*ix as nat, *saved),
            ScriptAction::Select(sel) => ActionModel::Select(
                match sel {
                    Some(ix) => Some(*ix as nat),
                    None => None,
                },
            ),
        }
    }
}

/// One notification or effect raised by the manager. The application runs
/// the matching observer callbacks, reads files, and destroys the window.
pub enum ScriptEvent {
    /// A fresh untitled tab was appended.
    NewTab(OpenedFile),
    /// A tab built from a successful file read was appended.
    OpenedTab(OpenedFile),
    /// The tab at the first position was removed; the second field is the
    /// count of tabs that remain.
    TabClosed(usize, usize),
    /// Closing this unsaved tab needs the user's confirmation.
    CloseConfirm(OpenedFile),
    /// The tab at this position is now saved.
    FilePersisted(usize),
    /// The tab at this position now has unsaved changes.
    FileChanged(usize),
    /// The active selection changed.
    SelectionChanged(Option<usize>),
    /// Reading a script file failed; the payload is the error message.
    OpenFailed(String),
    /// The file at this path should be read off the processing thread.
    FileReadRequested(String),
    /// The application window should be destroyed now.
    WindowDestroyed,
}

impl View for ScriptEvent {
    type V = EventModel;

    open spec fn view(&self) -> EventModel {
        match self {
            ScriptEvent::NewTab(file) => EventModel::NewTab(file@),
            ScriptEvent::OpenedTab(file) => EventModel::OpenedTab(file@),
            ScriptEvent::TabClosed(ix, n) => EventModel::TabClosed(*ix as nat, *n as nat),
            ScriptEvent::CloseConfirm(file) => EventModel::CloseConfirm(file@),
            ScriptEvent::FilePersisted(ix) => EventModel::FilePersisted(*ix as nat),
            ScriptEvent::FileChanged(ix) => EventModel::FileChanged(*ix as nat),
            ScriptEvent::SelectionChanged(sel) => EventModel::SelectionChanged(
                match sel {
                    Some(ix) => Some(*ix as nat),
                    None => None,
                },
            ),
            ScriptEvent::OpenFailed(msg) => EventModel::OpenFailed(msg@),
            ScriptEvent::FileReadRequested(path) => EventModel::FileReadRequested(path@),
            ScriptEvent::WindowDestroyed => EventModel::WindowDestroyed,
        }
    }
}

/// The models of a sequence of raised events, in order.
pub open spec fn events_view(es: Seq<ScriptEvent>) -> Seq<EventModel> {
    Seq::new(es.len(), |i: int| es[i]@)
}

// ---------------------------------------------------------------------------
// The manager
// ---------------------------------------------------------------------------

/// The script tab manager. It owns the tab collection exclusively: the only
/// way to change it is [`OpenedScripts::process`].
pub struct OpenedScripts {
    files: Vec<OpenedFile>,
    selected: Option<usize>,
    close_deferred: bool,
}

impl View for OpenedScripts {
    type V = ManagerModel;

    closed spec fn view(&self) -> ManagerModel {
        ManagerModel {
            tabs: Seq::new(self.files@.len(), |i: int| self.files@[i]@),
            selected: match self.selected {
                Some(ix) => Some(ix as nat),
                None => None,
            },
            close_deferred: self.close_deferred,
        }
    }
}

impl OpenedScripts {
    /// A manager with no tabs, no selection and no pending window close.
    pub fn new() -> (r: OpenedScripts)
        ensures
            r@ == ManagerModel::init(),
            wf(r@),
    {
        let r = OpenedScripts { files: Vec::new(), selected: None, close_deferred: false };
        proof {
            assert(r@.tabs =~= Seq::<TabModel>::empty());
            assert(r@ =~= ManagerModel::init());
        }
        r
    }

    /// How many tabs are open.
    pub fn count(&self) -> (n: usize)
        ensures
            n == self@.tabs.len(),
    {
        self.files.len()
    }

    /// The tab at position `ix`.
    pub fn tab(&self, ix: usize) -> (f: &OpenedFile)
        requires
            ix < self@.tabs.len(),
        ensures
            f@ == self@.tabs[ix as int],
    {
        &self.files[ix]
    }

    /// The active selection.
    pub fn selection(&self) -> (s: Option<usize>)
        ensures
            self@.selected == match s {
                Some(ix) => Some(ix as nat),
                None => None::<nat>,
            },
    {
        self.selected
    }

    /// Whether a window-close request is waiting on a close confirmation.
    pub fn close_deferred(&self) -> (b: bool)
        ensures
            b == self@.close_deferred,
    {
        self.close_deferred
    }

    /// Removes the tab at `ix` and restores the position invariant of every
    /// tab that moved down.
    fn remove_at(&mut self, ix: usize)
        requires
            ix < old(self).files@.len(),
        ensures
            final(self)@.tabs == remove_tab(old(self)@.tabs, ix as int),
            final(self)@.selected == old(self)@.selected,
            final(self)@.close_deferred == old(self)@.close_deferred,
    {
        let ghost orig = self.files@;
        self.files.remove(ix);
        let mut j: usize = ix;
        while j < self.files.len()
            invariant
                ix <= j <= self.files@.len(),
                self.files@.len() == orig.len() - 1,
                forall|k: int| 0 <= k < ix ==> self.files@[k] == orig[k],
                forall|k: int|
                    ix <= k < j ==> (#[trigger] self.files@[k]) == (OpenedFile {
                        index: k as usize,
                        ..orig[k + 1]
                    }),
                forall|k: int| j <= k < self.files@.len() ==> self.files@[k] == orig[k + 1],
                self.selected == old(self).selected,
                self.close_deferred == old(self).close_deferred,
            decreases self.files@.len() - j,
        {
            self.files[j].index = j;
            j += 1;
        }
        proof {
            assert(self@.tabs =~= remove_tab(old(self)@.tabs, ix as int));
        }
    }

    /// Handles one request: applies its effect to the tab collection, the
    /// selection and the pending window close, and returns the notifications
    /// raised, in order — exactly as the transition function [`step`] says.
    pub fn process(&mut self, action: ScriptAction) -> (events: Vec<ScriptEvent>)
        requires
            wf(old(self)@),
            action_allowed(old(self)@, action@),
        ensures
            final(self)@ == step(old(self)@, action@).0,
            events_view(events@) == step(old(self)@, action@).1,
            wf(final(self)@),
    {
        let ghost s0 = self@;
        let ghost a = action@;
        let mut events: Vec<ScriptEvent> = Vec::new();
        match action {
            ScriptAction::NewRequest => {
                if self.files.len() < MAX_OPEN_TABS {
                    let n = self.files.len();
                    let name = untitled_label(n + 1);
                    let file = OpenedFile {
                        name,
                        path: None,
                        content: None,
                        saved: true,
                        index: n,
                    };
                    let copy = file.duplicate();
                    self.files.push(file);
                    events.push(ScriptEvent::NewTab(copy));
                    proof {
                        assert(copy@ == fresh_tab(s0.tabs.len()));
                        assert(self@.tabs =~= s0.tabs.push(fresh_tab(s0.tabs.len())));
                    }
                }
            },
            ScriptAction::OpenRequest(path) => {
                if self.files.len() < MAX_OPEN_TABS {
                    events.push(ScriptEvent::FileReadRequested(path));
                }
            },
            ScriptAction::OpenSuccess(file) => {
                if self.files.len() < MAX_OPEN_TABS {
                    let n = self.files.len();
                    let tab = OpenedFile {
                        name: file.name,
                        path: file.path,
                        content: file.content,
                        saved: true,
                        index: n,
                    };
                    let copy = tab.duplicate();
                    self.files.push(tab);
                    events.push(ScriptEvent::OpenedTab(copy));
                    proof {
                        assert(copy@ == (TabModel {
                            saved: true,
                            index: s0.tabs.len(),
                            ..a->OpenSuccess_0
                        }));
                        assert(self@.tabs =~= s0.tabs.push(copy@));
                    }
                }
            },
            ScriptAction::OpenFailure(msg) => {
                events.push(ScriptEvent::OpenFailed(msg));
            },
            ScriptAction::CloseRequest(ix, force) => {
                if force {
                    self.remove_at(ix);
                    proof {
                        assert(self@.tabs == remove_tab(s0.tabs, ix as int));
                        assert(self@.close_deferred == s0.close_deferred);
                        assert(self.files@.len() == s0.tabs.len() - 1);
                    }
                    let n = self.files.len();
                    events.push(ScriptEvent::TabClosed(ix, n));
                    if self.close_deferred {
                        events.push(ScriptEvent::WindowDestroyed);
                    } else {
                        proof {
                            assert(events@[0]@ == EventModel::TabClosed(
                                ix as nat,
                                (s0.tabs.len() - 1) as nat,
                            ));
                            assert(step(s0, a).1 =~~= seq![
                                EventModel::TabClosed(ix as nat, (s0.tabs.len() - 1) as nat),
                            ]);
                        }
                    }
                } else {
                    proof { assert(self.files@[ix as int].saved == s0.tabs[ix as int].saved); }
                    if self.files[ix].saved {
                        self.remove_at(ix);
                        proof {
                            assert(self@.tabs == remove_tab(s0.tabs, ix as int));
                            assert(self.files@.len() == s0.tabs.len() - 1);
                        }
                        let n = self.files.len();
                        events.push(ScriptEvent::TabClosed(ix, n));
                        proof {
                            assert(events@[0]@ == EventModel::TabClosed(
                                ix as nat,
                                (s0.tabs.len() - 1) as nat,
                            ));
                            assert(step(s0, a).1 =~~= seq![
                                EventModel::TabClosed(ix as nat, (s0.tabs.len() - 1) as nat),
                            ]);
                        }
                    } else {
                        let copy = self.files[ix].duplicate();
                        proof { assert(copy@ == s0.tabs[ix as int]); }
                        events.push(ScriptEvent::CloseConfirm(copy));
                    }
                }
            },
            ScriptAction::SetSaved(ix, saved) => {
                self.files[ix].saved = saved;
                if saved {
                    events.push(ScriptEvent::FilePersisted(ix));
                } else {
                    events.push(ScriptEvent::FileChanged(ix));
                }
                proof {
                    assert(self@.tabs =~= s0.tabs.update(
                        ix as int,
                        TabModel { saved: saved, ..s0.tabs[ix as int] },
                    ));
                }
            },
            ScriptAction::Select(sel) => {
                self.selected = sel;
                events.push(ScriptEvent::SelectionChanged(sel));
            },
            ScriptAction::WindowCloseRequest => {
                let n = self.files.len();
                let mut i: usize = 0;
                while i < n && self.files[i].saved
                    invariant
                        i <= n,
                        n == self@.tabs.len(),
                        forall|j: int| 0 <= j < i ==> (#[trigger] self@.tabs[j]).saved,
                    decreases n - i,
                {
                    i += 1;
                }
                if i < n {
                    let copy = self.files[i].duplicate();
                    self.close_deferred = true;
                    events.push(ScriptEvent::CloseConfirm(copy));
                    proof {
                        assert(is_first_dirty(s0.tabs, i as int));
                        assert(has_dirty(s0.tabs));
                        let k = choose|k: int| is_first_dirty(s0.tabs, k);
                        assert(is_first_dirty(s0.tabs, k));
                        assert(k == i as int) by {
                            if k < i as int {
                                assert(s0.tabs[k].saved);
                            }
                            if (i as int) < k {
                                assert(s0.tabs[i as int].saved);
                            }
                        };
                    }
                } else {
                    events.push(ScriptEvent::WindowDestroyed);
                    proof {
                        assert(!has_dirty(s0.tabs));
                    }
                }
            },
            ScriptAction::CloseConfirm(_) => {},
            ScriptAction::SaveRequest(_) => {},
            ScriptAction::Opened(_) => {},
            ScriptAction::Closed(_) => {},
            ScriptAction::ActiveTextChanged(_) => {},
        }
        proof {
            assert(self@ =~= step(s0, a).0);
            assert(events_view(events@) =~~= step(s0, a).1);
            lemma_step_preserves_wf(s0, a);
        }
        events
    }
}

/// An empty placeholder kept for the script history the application is yet
/// to record.
pub struct ScriptHistory {
}

impl ScriptHistory {
    pub fn new() -> Self {
        ScriptHistory {  }
    }
}

} // verus!
