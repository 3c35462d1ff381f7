//! Key bindings: which action a key triggers in which context.

use smallvec::SmallVec;
use vstd::prelude::*;

use crate::app::{CurrentScreen, EditingField, FocusableField};
use crate::default_keymap::{default_rules, default_table};
use crate::text::{join, join_texts, views};

verus! {

// ── Keys ──────────────────────────────────────────────────────────────────────

/// A media key.
#[derive(Debug, Clone, Copy, PartialEq, Eq, Structural)]
pub enum MediaKeyCode {
    Play,
    Pause,
    PlayPause,
    Reverse,
    Stop,
    FastForward,
    Rewind,
    TrackNext,
    TrackPrevious,
    Record,
    LowerVolume,
    RaiseVolume,
    MuteVolume,
}

/// A modifier key pressed by itself.
#[derive(Debug, Clone, Copy, PartialEq, Eq, Structural)]
pub enum ModifierKeyCode {
    LeftShift,
    LeftControl,
    LeftAlt,
    LeftSuper,
    LeftHyper,
    LeftMeta,
    RightShift,
    RightControl,
    RightAlt,
    RightSuper,
    RightHyper,
    RightMeta,
    IsoLevel3Shift,
    IsoLevel5Shift,
}

/// A key of the keyboard.
#[derive(Debug, Clone, Copy, PartialEq, Eq, Structural)]
pub enum KeyCode {
    Backspace,
    Enter,
    Left,
    Right,
    Up,
    Down,
    Home,
    End,
    PageUp,
    PageDown,
    Tab,
    BackTab,
    Delete,
    Insert,
    F(u8),
    Char(char),
    Null,
    Esc,
    CapsLock,
    ScrollLock,
    NumLock,
    PrintScreen,
    Pause,
    Menu,
    KeypadBegin,
    Media(MediaKeyCode),
    Modifier(ModifierKeyCode),
}

/// The modifier keys held down together with a key.
#[derive(Debug, Clone, Copy, PartialEq, Eq, Structural)]
pub struct KeyModifiers {
    pub shift: bool,
    pub control: bool,
    pub alt: bool,
    pub super_key: bool,
    pub hyper: bool,
    pub meta: bool,
}

impl KeyModifiers {
    pub open spec fn spec_none() -> KeyModifiers {
        KeyModifiers {
            shift: false,
            control: false,
            alt: false,
            super_key: false,
            hyper: false,
            meta: false,
        }
    }

    pub open spec fn spec_shift() -> KeyModifiers {
        KeyModifiers { shift: true, ..KeyModifiers::spec_none() }
    }

    pub open spec fn spec_control() -> KeyModifiers {
        KeyModifiers { control: true, ..KeyModifiers::spec_none() }
    }

    pub open spec fn spec_alt() -> KeyModifiers {
        KeyModifiers { alt: true, ..KeyModifiers::spec_none() }
    }

    /// Whether all the modifiers of `other` are held.
    pub open spec fn covers(self, other: KeyModifiers) -> bool {
        &&& other.shift ==> self.shift
        &&& other.control ==> self.control
        &&& other.alt ==> self.alt
        &&& other.super_key ==> self.super_key
        &&& other.hyper ==> self.hyper
        &&& other.meta ==> self.meta
    }

    /// No modifier.
    #[verifier::when_used_as_spec(spec_none)]
    pub fn none() -> (m: KeyModifiers)
        ensures
            m == KeyModifiers::spec_none(),
    {
        KeyModifiers {
            shift: false,
            control: false,
            alt: false,
            super_key: false,
            hyper: false,
            meta: false,
        }
    }

    /// Shift alone.
    #[verifier::when_used_as_spec(spec_shift)]
    pub fn shift() -> (m: KeyModifiers)
        ensures
            m == KeyModifiers::spec_shift(),
    {
        KeyModifiers { shift: true, ..KeyModifiers::none() }
    }

    /// Control alone.
    #[verifier::when_used_as_spec(spec_control)]
    pub fn control() -> (m: KeyModifiers)
        ensures
            m == KeyModifiers::spec_control(),
    {
        KeyModifiers { control: true, ..KeyModifiers::none() }
    }

    /// Alt alone.
    #[verifier::when_used_as_spec(spec_alt)]
    pub fn alt() -> (m: KeyModifiers)
        ensures
            m == KeyModifiers::spec_alt(),
    {
        KeyModifiers { alt: true, ..KeyModifiers::none() }
    }

    /// Whether all the modifiers of `other` are held.
    pub fn contains(&self, other: KeyModifiers) -> (r: bool)
        ensures
            r == self.covers(other),
    {
        (!other.shift || self.shift) && (!other.control || self.control) && (!other.alt || self.alt)
            && (!other.super_key || self.super_key) && (!other.hyper || self.hyper) && (!other.meta
            || self.meta)
    }
}

/// What happened to a key.
#[derive(Debug, Clone, Copy, PartialEq, Eq, Structural)]
pub enum KeyEventKind {
    Press,
    Repeat,
    Release,
}

/// A key event of the terminal.
#[derive(Debug, Clone, Copy, PartialEq, Eq, Structural)]
pub struct KeyEvent {
    pub code: KeyCode,
    pub modifiers: KeyModifiers,
    pub kind: KeyEventKind,
}

// ── Context ───────────────────────────────────────────────────────────────────

/// What the meaning of a key depends on.
#[derive(Debug, Clone, Copy, PartialEq, Eq, Structural)]
pub struct KeyContext {
    pub screen: CurrentScreen,
    pub editing: Option<EditingField>,
    pub focus: FocusableField,
}

// ── Action ────────────────────────────────────────────────────────────────────

/// What a key can make the application do.
#[derive(Debug, Clone, Copy, PartialEq, Eq, Structural)]
pub enum Action {
    // Global
    TriggerExit,
    // Main screen
    NewRequest,
    DeleteRequest,
    SelectNextRequest,
    SelectPreviousRequest,
    EditRequest,
    SaveRequests,
    // Exit confirmation
    ConfirmExit,
    CancelExit,
    // Request screen, navigation
    FocusNextField,
    FocusPreviousField,
    EditFocusedField,
    EditSelectedHeader,
    ScrollDown,
    ScrollUp,
    PageDown,
    PageUp,
    GoBack,
    AddHeader,
    DeleteHeader,
    SelectNextHeader,
    SelectPreviousHeader,
    ToggleMethod,
    JumpToUrl,
    FocusHeaders,
    JumpToBody,
    SendRequest,
    CycleViewMode,
    EditJqFilter,
    EditStreamPrefixRegex,
    EditStreamSuffixRegex,
    // Editing mode
    CancelEdit,
    ConfirmEdit,
    ToggleHeaderKeyValue,
    InsertNewline,
    SaveBody,
    DeleteChar,
    DeleteNextChar,
    DeleteWordBackward,
    DeleteWordForward,
    CursorLeft,
    CursorRight,
    CursorWordLeft,
    CursorWordRight,
    CursorHome,
    CursorEnd,
    AutocompleteDown,
    AutocompleteUp,
}

// ── Trigger ───────────────────────────────────────────────────────────────────

/// A key, or a key with modifiers, that sets a binding off.
#[derive(Debug, Clone, Copy, PartialEq, Eq, Structural)]
pub enum KeyTrigger {
    Char(char),
    Code(KeyCode),
    Modified(KeyModifiers, KeyCode),
}

impl KeyTrigger {
    /// Whether the event sets the trigger off.  A plain key wants no modifier
    /// at all, a modified one wants at least its own.
    pub open spec fn fires(self, event: KeyEvent) -> bool {
        match self {
            KeyTrigger::Char(c) => event.code == KeyCode::Char(c) && event.modifiers
                == KeyModifiers::none(),
            KeyTrigger::Code(code) => event.code == code && event.modifiers
                == KeyModifiers::none(),
            KeyTrigger::Modified(mods, code) => event.code == code && event.modifiers.covers(mods),
        }
    }

    pub fn matches(&self, event: &KeyEvent) -> (r: bool)
        ensures
            r == self.fires(*event),
    {
        match self {
            KeyTrigger::Char(c) => event.code == KeyCode::Char(*c) && event.modifiers
                == KeyModifiers::none(),
            KeyTrigger::Code(code) => event.code == *code && event.modifiers
                == KeyModifiers::none(),
            KeyTrigger::Modified(mods, code) => event.code == *code && event.modifiers.contains(
                *mods,
            ),
        }
    }
}

/// The triggers of one binding, with room for four before the heap is needed.
#[verifier::external_body]
pub struct TriggerList {
    items: SmallVec<[KeyTrigger; 4]>,
}

/// The triggers that a list holds, in their order.
pub uninterp spec fn triggers_of(list: TriggerList) -> Seq<KeyTrigger>;

impl TriggerList {
    /// `SmallVec::new`: an empty list.
    #[verifier::external_body]
    pub(crate) fn new() -> (list: TriggerList)
        ensures
            triggers_of(list) == Seq::<KeyTrigger>::empty(),
    {
        TriggerList { items: SmallVec::new() }
    }

    /// `SmallVec::push`: appends an item, here while the room inside the list
    /// lasts, so that nothing is allocated.
    #[verifier::external_body]
    pub(crate) fn push(&mut self, trigger: KeyTrigger)
        requires
            triggers_of(*old(self)).len() < 4,
        ensures
            triggers_of(*final(self)) == triggers_of(*old(self)).push(trigger),
    {
        self.items.push(trigger)
    }

    /// `SmallVec::as_slice`: all the items, in their order.
    #[verifier::external_body]
    pub(crate) fn as_slice(&self) -> (items: &[KeyTrigger])
        ensures
            items@ == triggers_of(*self),
    {
        self.items.as_slice()
    }
}

// ── Binding ───────────────────────────────────────────────────────────────────

/// A set of keys, the action they trigger and how the user is told of them.
pub struct Binding {
    pub triggers: TriggerList,
    pub action: Action,
    pub hint: &'static str,
    pub description: &'static str,
}

/// What a binding says.
#[verifier::ext_equal]
pub ghost struct BindingModel {
    pub triggers: Seq<KeyTrigger>,
    pub action: Action,
    pub hint: Seq<char>,
    pub description: Seq<char>,
}

impl BindingModel {
    /// Whether one of the triggers is set off.
    pub open spec fn fires(self, event: KeyEvent) -> bool {
        exists|i: int| 0 <= i < self.triggers.len() && (#[trigger] self.triggers[i]).fires(event)
    }

    /// How the binding is shown to the user.
    pub open spec fn hint_text(self) -> Seq<char> {
        self.hint + " - "@ + self.description
    }
}

impl View for Binding {
    type V = BindingModel;

    open spec fn view(&self) -> BindingModel {
        BindingModel {
            triggers: triggers_of(self.triggers),
            action: self.action,
            hint: self.hint@,
            description: self.description@,
        }
    }
}

impl Binding {
    fn fires(&self, event: &KeyEvent) -> (r: bool)
        ensures
            r == self@.fires(*event),
    {
        let items = self.triggers.as_slice();
        let mut i: usize = 0;
        while i < items.len()
            invariant
                i <= items@.len(),
                items@ == self@.triggers,
                forall|j: int| 0 <= j < i ==> !(#[trigger] items@[j]).fires(*event),
            decreases items@.len() - i,
        {
            if items[i].matches(event) {
                assert(self@.triggers[i as int].fires(*event));
                return true;
            }
            i = i + 1;
        }
        false
    }

    /// How the binding is shown to the user: its hint and its description.
    pub fn hint_text(&self) -> (r: String)
        ensures
            r@ == self@.hint_text(),
    {
        let mut r = self.hint.to_owned();
        r.append(" - ");
        r.append(self.description);
        r
    }
}

// ── Context rules ─────────────────────────────────────────────────────────────

/// How closely a rule is tied to a context, from the loosest to the closest.
#[derive(Debug, Clone, Copy, PartialEq, Eq, Structural)]
pub enum Specificity {
    AnyEditing,
    SpecificEditing,
    AnyNavigation,
    SpecificNavigation,
}

/// Which editing states a rule is for.
#[derive(Debug, Clone, Copy, PartialEq, Eq, Structural)]
pub enum EditingMatch {
    Navigation,
    AnyField,
    SpecificField(EditingField),
}

/// The bindings of a set of contexts.
pub struct ContextRule {
    pub screen: CurrentScreen,
    pub editing: EditingMatch,
    pub focus: Option<FocusableField>,
    pub bindings: Vec<Binding>,
}

/// What a rule says.
#[verifier::ext_equal]
pub ghost struct RuleModel {
    pub screen: CurrentScreen,
    pub editing: EditingMatch,
    pub focus: Option<FocusableField>,
    pub bindings: Seq<BindingModel>,
}

/// What each of some bindings says.
pub open spec fn binding_models(bindings: Seq<Binding>) -> Seq<BindingModel> {
    Seq::new(bindings.len(), |i: int| bindings[i]@)
}

/// What each of some bindings says.
pub open spec fn shown_models(bindings: Seq<&Binding>) -> Seq<BindingModel> {
    Seq::new(bindings.len(), |i: int| bindings[i]@)
}

/// What each of some rules says.
pub open spec fn rule_models(rules: Seq<ContextRule>) -> Seq<RuleModel> {
    Seq::new(rules.len(), |i: int| rules[i]@)
}

impl RuleModel {
    /// Whether the rule is for the context.
    pub open spec fn covers(self, ctx: KeyContext) -> bool {
        &&& self.screen == ctx.screen
        &&& match self.editing {
            EditingMatch::Navigation => ctx.editing is None,
            EditingMatch::AnyField => ctx.editing is Some,
            EditingMatch::SpecificField(field) => ctx.editing == Some(field),
        }
        &&& self.focus is Some ==> self.focus == Some(ctx.focus)
    }

    /// How closely the rule is tied to its contexts.
    pub open spec fn specificity(self) -> Specificity {
        match self.editing {
            EditingMatch::Navigation => if self.focus is None {
                Specificity::AnyNavigation
            } else {
                Specificity::SpecificNavigation
            },
            EditingMatch::AnyField => Specificity::AnyEditing,
            EditingMatch::SpecificField(_) => Specificity::SpecificEditing,
        }
    }

    /// How closely the rule is tied to the context, if it is for it at all.
    pub open spec fn grade(self, ctx: KeyContext) -> Option<Specificity> {
        if self.covers(ctx) {
            Some(self.specificity())
        } else {
            None
        }
    }
}

impl View for ContextRule {
    type V = RuleModel;

    open spec fn view(&self) -> RuleModel {
        RuleModel {
            screen: self.screen,
            editing: self.editing,
            focus: self.focus,
            bindings: binding_models(self.bindings@),
        }
    }
}

impl ContextRule {
    fn matches(&self, ctx: &KeyContext) -> (r: Option<Specificity>)
        ensures
            r == self@.grade(*ctx),
    {
        if self.screen != ctx.screen {
            return None;
        }
        match (self.editing, ctx.editing) {
            (EditingMatch::Navigation, Some(_)) => {
                return None;
            },
            (EditingMatch::AnyField, None) => {
                return None;
            },
            (EditingMatch::SpecificField(_), None) => {
                return None;
            },
            (EditingMatch::SpecificField(required), Some(actual)) => {
                if required != actual {
                    return None;
                }
            },
            _ => {},
        }
        if let Some(required_focus) = self.focus {
            if required_focus != ctx.focus {
                return None;
            }
        }
        let grade = match (self.editing, self.focus) {
            (EditingMatch::Navigation, None) => Specificity::AnyNavigation,
            (EditingMatch::Navigation, Some(_)) => Specificity::SpecificNavigation,
            (EditingMatch::AnyField, _) => Specificity::AnyEditing,
            (EditingMatch::SpecificField(_), _) => Specificity::SpecificEditing,
        };
        Some(grade)
    }
}

// ── Resolution ────────────────────────────────────────────────────────────────

/// The bindings of the rules that are tied to the context with this grade, in
/// the order of the table.
pub open spec fn graded(rules: Seq<RuleModel>, ctx: KeyContext, grade: Specificity) -> Seq<
    BindingModel,
>
    decreases rules.len(),
{
    if rules.len() == 0 {
        Seq::empty()
    } else {
        graded(rules.drop_last(), ctx, grade) + (if rules.last().grade(ctx) == Some(grade) {
            rules.last().bindings
        } else {
            Seq::empty()
        })
    }
}

/// All the bindings of a context: those of closer rules first, and otherwise
/// in the order of the table.
pub open spec fn ranked(rules: Seq<RuleModel>, ctx: KeyContext) -> Seq<BindingModel> {
    graded(rules, ctx, Specificity::SpecificNavigation) + graded(
        rules,
        ctx,
        Specificity::AnyNavigation,
    ) + graded(rules, ctx, Specificity::SpecificEditing) + graded(
        rules,
        ctx,
        Specificity::AnyEditing,
    )
}

/// The bindings of the rules that are made for the field of the context, in
/// the order of the table.
pub open spec fn of_field(rules: Seq<RuleModel>, ctx: KeyContext) -> Seq<BindingModel>
    decreases rules.len(),
{
    if rules.len() == 0 {
        Seq::empty()
    } else {
        of_field(rules.drop_last(), ctx) + (if rules.last().grade(ctx) == Some(
            Specificity::SpecificNavigation,
        ) || rules.last().grade(ctx) == Some(Specificity::SpecificEditing) {
            rules.last().bindings
        } else {
            Seq::empty()
        })
    }
}

/// The action of the first binding that the event sets off.
pub open spec fn first_action(bindings: Seq<BindingModel>, event: KeyEvent) -> Option<Action>
    decreases bindings.len(),
{
    if bindings.len() == 0 {
        None
    } else if first_action(bindings.drop_last(), event) is Some {
        first_action(bindings.drop_last(), event)
    } else if bindings.last().fires(event) {
        Some(bindings.last().action)
    } else {
        None
    }
}

/// Whether a binding with this action is among some bindings.
pub open spec fn has_action(bindings: Seq<BindingModel>, action: Action) -> bool {
    exists|i: int| 0 <= i < bindings.len() && (#[trigger] bindings[i]).action == action
}

/// The first binding of each action, in their order.
pub open spec fn first_of_each(bindings: Seq<BindingModel>) -> Seq<BindingModel>
    decreases bindings.len(),
{
    if bindings.len() == 0 {
        Seq::empty()
    } else if has_action(first_of_each(bindings.drop_last()), bindings.last().action) {
        first_of_each(bindings.drop_last())
    } else {
        first_of_each(bindings.drop_last()).push(bindings.last())
    }
}

/// The texts of some bindings.
pub open spec fn hint_texts(bindings: Seq<BindingModel>) -> Seq<Seq<char>> {
    Seq::new(bindings.len(), |i: int| bindings[i].hint_text())
}

/// The hints and descriptions of the bindings with an action, in their order.
pub open spec fn shortcuts(bindings: Seq<BindingModel>, action: Action) -> Seq<
    (Seq<char>, Seq<char>),
>
    decreases bindings.len(),
{
    if bindings.len() == 0 {
        Seq::empty()
    } else if bindings.last().action == action {
        shortcuts(bindings.drop_last(), action).push(
            (bindings.last().hint, bindings.last().description),
        )
    } else {
        shortcuts(bindings.drop_last(), action)
    }
}

/// The action that leads to a field of the request screen, if there is one.
pub open spec fn jump_action(field: FocusableField) -> Option<Action> {
    match field {
        FocusableField::Url => Some(Action::JumpToUrl),
        FocusableField::Headers => Some(Action::FocusHeaders),
        FocusableField::Body => Some(Action::JumpToBody),
        FocusableField::RequestEvents => None,
        FocusableField::Response => None,
    }
}

/// The context of the request screen while nothing is edited.
pub open spec fn navigation_context() -> KeyContext {
    KeyContext { screen: CurrentScreen::Request, editing: None, focus: FocusableField::Url }
}

proof fn lemma_first_action_concat(a: Seq<BindingModel>, b: Seq<BindingModel>, event: KeyEvent)
    ensures
        first_action(a + b, event) == (if first_action(a, event) is Some {
            first_action(a, event)
        } else {
            first_action(b, event)
        }),
    decreases b.len(),
{
    if b.len() == 0 {
        assert(a + b =~= a);
    } else {
        lemma_first_action_concat(a, b.drop_last(), event);
        assert((a + b).drop_last() =~= a + b.drop_last());
    }
}

/// The key table.
pub struct Keymap {
    rules: Vec<ContextRule>,
}

impl View for Keymap {
    type V = Seq<RuleModel>;

    closed spec fn view(&self) -> Seq<RuleModel> {
        rule_models(self.rules@)
    }
}

impl Keymap {
    /// The table that the application starts with.
    pub fn default() -> (k: Keymap)
        ensures
            k@ == default_table(),
    {
        Keymap { rules: default_rules() }
    }

    /// The first action of the rules of one grade.
    fn resolve_grade(&self, ctx: &KeyContext, event: &KeyEvent, grade: Specificity) -> (r: Option<
        Action,
    >)
        ensures
            r == first_action(graded(self@, *ctx, grade), *event),
    {
        let ghost rules = self@;
        let mut i: usize = 0;
        while i < self.rules.len()
            invariant
                i <= self.rules@.len(),
                rules == rule_models(self.rules@),
                rules == self@,
                first_action(graded(rules.take(i as int), *ctx, grade), *event) is None,
            decreases self.rules@.len() - i,
        {
            let rule = &self.rules[i];
            proof {
                assert(rules.take(i + 1).drop_last() =~= rules.take(i as int));
                assert(rules.take(i + 1).last() == rule@);
            }
            if rule.matches(ctx) == Some(grade) {
                let ghost bindings = rule@.bindings;
                let ghost before = graded(rules.take(i as int), *ctx, grade);
                let mut j: usize = 0;
                proof {
                    assert(bindings.take(0) =~= Seq::<BindingModel>::empty());
                }
                while j < rule.bindings.len()
                    invariant
                        j <= rule.bindings@.len(),
                        i < self.rules@.len(),
                        rules == rule_models(self.rules@),
                        rules == self@,
                        *rule == self.rules@[i as int],
                        bindings == binding_models(rule.bindings@),
                        before == graded(rules.take(i as int), *ctx, grade),
                        first_action(before, *event) is None,
                        graded(rules.take(i + 1), *ctx, grade) == before + bindings,
                        first_action(bindings.take(j as int), *event) is None,
                    decreases rule.bindings@.len() - j,
                {
                    proof {
                        assert(bindings.take(j + 1).drop_last() =~= bindings.take(j as int));
                    }
                    if rule.bindings[j].fires(event) {
                        proof {
                            lemma_first_action_prefix(bindings, j + 1, *event);
                            lemma_first_action_concat(before, bindings, *event);
                            lemma_graded_prefix(rules, *ctx, grade, i + 1, *event);
                        }
                        return Some(rule.bindings[j].action);
                    }
                    j = j + 1;
                }
                proof {
                    assert(bindings.take(j as int) =~= bindings);
                    lemma_first_action_concat(before, bindings, *event);
                }
            } else {
                proof {
                    assert(graded(rules.take(i + 1), *ctx, grade) =~= graded(
                        rules.take(i as int),
                        *ctx,
                        grade,
                    ));
                }
            }
            i = i + 1;
        }
        proof {
            assert(rules.take(i as int) =~= rules);
        }
        None
    }

    /// The action that the key event triggers in the context: the first
    /// binding that it sets off, those of closer rules first.
    pub fn resolve(&self, ctx: &KeyContext, event: &KeyEvent) -> (r: Option<Action>)
        ensures
            r == first_action(ranked(self@, *ctx), *event),
    {
        proof {
            let a = graded(self@, *ctx, Specificity::SpecificNavigation);
            let b = graded(self@, *ctx, Specificity::AnyNavigation);
            let c = graded(self@, *ctx, Specificity::SpecificEditing);
            let d = graded(self@, *ctx, Specificity::AnyEditing);
            lemma_first_action_concat(a, b, *event);
            lemma_first_action_concat(a + b, c, *event);
            lemma_first_action_concat(a + b + c, d, *event);
        }
        if let Some(action) = self.resolve_grade(ctx, event, Specificity::SpecificNavigation) {
            return Some(action);
        }
        if let Some(action) = self.resolve_grade(ctx, event, Specificity::AnyNavigation) {
            return Some(action);
        }
        if let Some(action) = self.resolve_grade(ctx, event, Specificity::SpecificEditing) {
            return Some(action);
        }
        self.resolve_grade(ctx, event, Specificity::AnyEditing)
    }
}

proof fn lemma_first_action_prefix(bindings: Seq<BindingModel>, k: int, event: KeyEvent)
    requires
        0 <= k <= bindings.len(),
        first_action(bindings.take(k), event) is Some,
    ensures
        first_action(bindings, event) == first_action(bindings.take(k), event),
{
    assert(bindings =~= bindings.take(k) + bindings.skip(k));
    lemma_first_action_concat(bindings.take(k), bindings.skip(k), event);
}

proof fn lemma_graded_prefix(
    rules: Seq<RuleModel>,
    ctx: KeyContext,
    grade: Specificity,
    k: int,
    event: KeyEvent,
)
    requires
        0 <= k <= rules.len(),
        first_action(graded(rules.take(k), ctx, grade), event) is Some,
    ensures
        first_action(graded(rules, ctx, grade), event) == first_action(
            graded(rules.take(k), ctx, grade),
            event,
        ),
    decreases rules.len() - k,
{
    if k < rules.len() {
        let next = rules.take(k + 1);
        assert(next.drop_last() =~= rules.take(k));
        lemma_first_action_concat(
            graded(rules.take(k), ctx, grade),
            if next.last().grade(ctx) == Some(grade) {
                next.last().bindings
            } else {
                Seq::empty()
            },
            event,
        );
        lemma_graded_prefix(rules, ctx, grade, k + 1, event);
    } else {
        assert(rules.take(k) =~= rules);
    }
}

/// The texts of pairs of a hint and a description.
pub open spec fn shortcut_texts(pairs: Seq<(&'static str, &'static str)>) -> Seq<
    (Seq<char>, Seq<char>),
> {
    Seq::new(pairs.len(), |i: int| (pairs[i].0@, pairs[i].1@))
}

/// Whether a binding with this action is among some bindings.
fn lists_action(bindings: &Vec<&Binding>, action: Action) -> (r: bool)
    ensures
        r == has_action(shown_models(bindings@), action),
{
    let ghost models = shown_models(bindings@);
    let mut i: usize = 0;
    while i < bindings.len()
        invariant
            i <= bindings@.len(),
            models == shown_models(bindings@),
            forall|j: int| 0 <= j < i ==> (#[trigger] models[j]).action != action,
        decreases bindings@.len() - i,
    {
        if bindings[i].action == action {
            assert(models[i as int].action == action);
            return true;
        }
        i = i + 1;
    }
    false
}

/// Appends the bindings whose action is not listed yet.
fn list_new<'a>(
    list: &mut Vec<&'a Binding>,
    bindings: &'a Vec<Binding>,
    Ghost(before): Ghost<Seq<BindingModel>>,
)
    requires
        shown_models(old(list)@) == first_of_each(before),
    ensures
        shown_models(final(list)@) == first_of_each(before + binding_models(bindings@)),
{
    let ghost more = binding_models(bindings@);
    let mut i: usize = 0;
    proof {
        assert(before + more.take(0) =~= before);
    }
    while i < bindings.len()
        invariant
            i <= bindings@.len(),
            more == binding_models(bindings@),
            shown_models(list@) == first_of_each(before + more.take(i as int)),
        decreases bindings@.len() - i,
    {
        let binding: &'a Binding = &bindings[i];
        let ghost shown = shown_models(list@);
        proof {
            let all = before + more.take(i + 1);
            assert(all.drop_last() =~= before + more.take(i as int));
            assert(all.last() == binding@);
        }
        if !lists_action(list, binding.action) {
            list.push(binding);
            proof {
                assert(shown_models(list@) =~= shown.push(binding@));
            }
        }
        i = i + 1;
    }
    proof {
        assert(more.take(i as int) =~= more);
    }
}

impl Keymap {
    /// Appends the bindings of the rules of one grade whose action is not
    /// listed yet.
    fn list_grade<'a>(
        &'a self,
        ctx: &KeyContext,
        grade: Specificity,
        list: &mut Vec<&'a Binding>,
        Ghost(before): Ghost<Seq<BindingModel>>,
    )
        requires
            shown_models(old(list)@) == first_of_each(before),
        ensures
            shown_models(final(list)@) == first_of_each(before + graded(self@, *ctx, grade)),
    {
        let ghost rules = self@;
        let mut i: usize = 0;
        proof {
            assert(before + graded(rules.take(0), *ctx, grade) =~= before);
        }
        while i < self.rules.len()
            invariant
                i <= self.rules@.len(),
                rules == rule_models(self.rules@),
                shown_models(list@) == first_of_each(
                    before + graded(rules.take(i as int), *ctx, grade),
                ),
            decreases self.rules@.len() - i,
        {
            let rule: &'a ContextRule = &self.rules[i];
            let ghost so_far = before + graded(rules.take(i as int), *ctx, grade);
            let ghost next = before + graded(rules.take(i + 1), *ctx, grade);
            proof {
                assert(rules.take(i + 1).drop_last() =~= rules.take(i as int));
                assert(rules.take(i + 1).last() == rule@);
            }
            if rule.matches(ctx) == Some(grade) {
                proof {
                    assert(next =~= so_far + rule@.bindings);
                }
                list_new(list, &rule.bindings, Ghost(so_far));
            } else {
                proof {
                    assert(next =~= so_far);
                }
            }
            i = i + 1;
        }
        proof {
            assert(rules.take(i as int) =~= rules);
        }
    }

    /// The bindings of the context, closer rules first, the first one of each
    /// action.
    pub fn bindings_for<'a>(&'a self, ctx: &KeyContext) -> (r: Vec<&'a Binding>)
        ensures
            shown_models(r@) == first_of_each(ranked(self@, *ctx)),
    {
        let mut list: Vec<&'a Binding> = Vec::new();
        let ghost a = graded(self@, *ctx, Specificity::SpecificNavigation);
        let ghost b = graded(self@, *ctx, Specificity::AnyNavigation);
        let ghost c = graded(self@, *ctx, Specificity::SpecificEditing);
        proof {
            assert(shown_models(list@) =~= first_of_each(Seq::empty()));
            assert(Seq::<BindingModel>::empty() + a =~= a);
        }
        self.list_grade(ctx, Specificity::SpecificNavigation, &mut list, Ghost(Seq::empty()));
        self.list_grade(ctx, Specificity::AnyNavigation, &mut list, Ghost(a));
        self.list_grade(ctx, Specificity::SpecificEditing, &mut list, Ghost(a + b));
        self.list_grade(ctx, Specificity::AnyEditing, &mut list, Ghost(a + b + c));
        list
    }

    /// The bindings made for the field of the context, in the order of the
    /// table, the first one of each action.
    pub fn field_bindings_for<'a>(&'a self, ctx: &KeyContext) -> (r: Vec<&'a Binding>)
        ensures
            shown_models(r@) == first_of_each(of_field(self@, *ctx)),
    {
        let mut list: Vec<&'a Binding> = Vec::new();
        let ghost rules = self@;
        let mut i: usize = 0;
        proof {
            assert(shown_models(list@) =~= first_of_each(of_field(rules.take(0), *ctx)));
        }
        while i < self.rules.len()
            invariant
                i <= self.rules@.len(),
                rules == rule_models(self.rules@),
                shown_models(list@) == first_of_each(of_field(rules.take(i as int), *ctx)),
            decreases self.rules@.len() - i,
        {
            let rule: &'a ContextRule = &self.rules[i];
            let ghost so_far = of_field(rules.take(i as int), *ctx);
            proof {
                assert(rules.take(i + 1).drop_last() =~= rules.take(i as int));
                assert(rules.take(i + 1).last() == rule@);
            }
            let grade = rule.matches(ctx);
            if grade == Some(Specificity::SpecificNavigation) || grade == Some(
                Specificity::SpecificEditing,
            ) {
                list_new(&mut list, &rule.bindings, Ghost(so_far));
            } else {
                proof {
                    assert(of_field(rules.take(i + 1), *ctx) =~= so_far);
                }
            }
            i = i + 1;
        }
        proof {
            assert(rules.take(i as int) =~= rules);
        }
        list
    }

    /// One line that tells the user of the bindings of the context.
    pub fn format_hint_line(&self, ctx: &KeyContext) -> (r: String)
        ensures
            r@ == join_texts(hint_texts(first_of_each(ranked(self@, *ctx))), " | "@),
    {
        let bindings = self.bindings_for(ctx);
        let ghost models = shown_models(bindings@);
        let mut parts: Vec<String> = Vec::new();
        let mut i: usize = 0;
        while i < bindings.len()
            invariant
                i <= bindings@.len(),
                models == shown_models(bindings@),
                views(parts@) =~= hint_texts(models.take(i as int)),
            decreases bindings@.len() - i,
        {
            let ghost done = parts@;
            let part = bindings[i].hint_text();
            proof {
                assert(part@ == models[i as int].hint_text());
                assert(views(done.push(part)) =~= views(done).push(part@));
                assert(hint_texts(models.take(i + 1)) =~= hint_texts(models.take(i as int)).push(
                    models[i as int].hint_text(),
                ));
            }
            parts.push(part);
            i = i + 1;
        }
        proof {
            assert(models.take(i as int) =~= models);
        }
        join(&parts, " | ")
    }

    /// The hints and descriptions of the keys that lead to a field of the
    /// request screen.
    pub fn focus_shortcut_for_field(&self, field: FocusableField) -> (r: Vec<
        (&'static str, &'static str),
    >)
        ensures
            shortcut_texts(r@) == (match jump_action(
                field,
            ) {
                Some(action) => shortcuts(
                    first_of_each(ranked(self@, navigation_context())),
                    action,
                ),
                None => Seq::empty(),
            }),
    {
        let target = match field {
            FocusableField::Url => Action::JumpToUrl,
            FocusableField::Headers => Action::FocusHeaders,
            FocusableField::Body => Action::JumpToBody,
            FocusableField::RequestEvents => {
                return Vec::new();
            },
            FocusableField::Response => {
                return Vec::new();
            },
        };
        let nav_ctx = KeyContext {
            screen: CurrentScreen::Request,
            editing: None,
            focus: FocusableField::Url,
        };
        let bindings = self.bindings_for(&nav_ctx);
        let ghost models = shown_models(bindings@);
        let mut r: Vec<(&'static str, &'static str)> = Vec::new();
        let mut i: usize = 0;
        while i < bindings.len()
            invariant
                i <= bindings@.len(),
                models == shown_models(bindings@),
                shortcut_texts(r@) =~= shortcuts(models.take(i as int), target),
            decreases bindings@.len() - i,
        {
            proof {
                assert(models.take(i + 1).drop_last() =~= models.take(i as int));
            }
            if bindings[i].action == target {
                r.push((bindings[i].hint, bindings[i].description));
            }
            i = i + 1;
        }
        proof {
            assert(models.take(i as int) =~= models);
        }
        r
    }
}

// ── Laws ──────────────────────────────────────────────────────────────────────

/// No action is listed twice.
pub proof fn lemma_listed_once(bindings: Seq<BindingModel>, i: int, j: int)
    requires
        0 <= i < j < first_of_each(bindings).len(),
    ensures
        first_of_each(bindings)[i].action != first_of_each(bindings)[j].action,
    decreases bindings.len(),
{
    let shorter = first_of_each(bindings.drop_last());
    if j < shorter.len() {
        lemma_listed_once(bindings.drop_last(), i, j);
    } else {
        assert(shorter[i].action != bindings.last().action);
    }
}

/// The list holds every action of the bindings it is made from, and only
/// those.
pub proof fn lemma_listed_actions(bindings: Seq<BindingModel>, action: Action)
    ensures
        has_action(first_of_each(bindings), action) <==> has_action(bindings, action),
    decreases bindings.len(),
{
    if bindings.len() > 0 {
        let rest = bindings.drop_last();
        let shorter = first_of_each(rest);
        lemma_listed_actions(rest, action);
        if has_action(rest, action) {
            let k = choose|k: int| 0 <= k < rest.len() && (#[trigger] rest[k]).action == action;
            assert(bindings[k].action == action);
        }
        if has_action(shorter, action) {
            let k = choose|k: int|
                0 <= k < shorter.len() && (#[trigger] shorter[k]).action == action;
            assert(first_of_each(bindings)[k].action == action);
        }
        if bindings.last().action == action {
            assert(bindings[bindings.len() - 1].action == action);
            if !has_action(shorter, action) {
                assert(first_of_each(bindings)[shorter.len() as int].action == action);
            }
        } else if has_action(bindings, action) {
            let k = choose|k: int|
                0 <= k < bindings.len() && (#[trigger] bindings[k]).action == action;
            assert(rest[k].action == action);
        }
        if has_action(first_of_each(bindings), action) && bindings.last().action != action {
            let all = first_of_each(bindings);
            let k = choose|k: int| 0 <= k < all.len() && (#[trigger] all[k]).action == action;
            assert(shorter[k].action == action);
        }
    }
}

proof fn lemma_first_action_has(bindings: Seq<BindingModel>, event: KeyEvent)
    requires
        first_action(bindings, event) is Some,
    ensures
        has_action(bindings, first_action(bindings, event)->0),
    decreases bindings.len(),
{
    let rest = bindings.drop_last();
    let action = first_action(bindings, event)->0;
    if first_action(rest, event) is Some {
        lemma_first_action_has(rest, event);
        let k = choose|k: int| 0 <= k < rest.len() && (#[trigger] rest[k]).action == action;
        assert(bindings[k].action == action);
    } else {
        assert(bindings[bindings.len() - 1].action == action);
    }
}

/// Whatever a key does in a context, the user is told of it there: the action
/// that an event resolves to is in the list of the context's bindings.
pub proof fn lemma_resolved_is_listed(rules: Seq<RuleModel>, ctx: KeyContext, event: KeyEvent)
    requires
        first_action(ranked(rules, ctx), event) is Some,
    ensures
        has_action(
            first_of_each(ranked(rules, ctx)),
            first_action(ranked(rules, ctx), event)->0,
        ),
{
    lemma_first_action_has(ranked(rules, ctx), event);
    lemma_listed_actions(
        ranked(rules, ctx),
        first_action(ranked(rules, ctx), event)->0,
    );
}

/// A closer rule wins: where a rule for the focused field binds the event, the
/// looser rules have no say.
pub proof fn lemma_closer_rule_wins(rules: Seq<RuleModel>, ctx: KeyContext, event: KeyEvent)
    ensures
        first_action(graded(rules, ctx, Specificity::SpecificNavigation), event) is Some
            ==> first_action(ranked(rules, ctx), event) == first_action(
            graded(rules, ctx, Specificity::SpecificNavigation),
            event,
        ),
{
    let a = graded(rules, ctx, Specificity::SpecificNavigation);
    let b = graded(rules, ctx, Specificity::AnyNavigation);
    let c = graded(rules, ctx, Specificity::SpecificEditing);
    let d = graded(rules, ctx, Specificity::AnyEditing);
    lemma_first_action_concat(a, b, event);
    lemma_first_action_concat(a + b, c, event);
    lemma_first_action_concat(a + b + c, d, event);
}

/// Whether none of some bindings is set off.
pub open spec fn none_fires(bindings: Seq<BindingModel>, event: KeyEvent) -> bool {
    forall|i: int| 0 <= i < bindings.len() ==> !(#[trigger] bindings[i]).fires(event)
}

proof fn lemma_none_fires(bindings: Seq<BindingModel>, event: KeyEvent)
    requires
        none_fires(bindings, event),
    ensures
        first_action(bindings, event) is None,
    decreases bindings.len(),
{
    if bindings.len() > 0 {
        let rest = bindings.drop_last();
        assert forall|i: int| 0 <= i < rest.len() implies !(#[trigger] rest[i]).fires(event) by {
            assert(rest[i] == bindings[i]);
        }
        assert(!bindings[bindings.len() - 1].fires(event));
        lemma_none_fires(rest, event);
    }
}

proof fn lemma_graded_none_fires(
    rules: Seq<RuleModel>,
    ctx: KeyContext,
    grade: Specificity,
    event: KeyEvent,
)
    requires
        forall|i: int|
            0 <= i < rules.len() && (#[trigger] rules[i]).covers(ctx) ==> none_fires(
                rules[i].bindings,
                event,
            ),
    ensures
        none_fires(graded(rules, ctx, grade), event),
    decreases rules.len(),
{
    if rules.len() > 0 {
        let rest = rules.drop_last();
        assert forall|i: int| 0 <= i < rest.len() && (#[trigger] rest[i]).covers(
            ctx,
        ) implies none_fires(rest[i].bindings, event) by {
            assert(rest[i] == rules[i]);
        }
        lemma_graded_none_fires(rest, ctx, grade, event);
        assert(rules[rules.len() - 1] == rules.last());
        let a = graded(rest, ctx, grade);
        let all = graded(rules, ctx, grade);
        assert forall|i: int| 0 <= i < all.len() implies !(#[trigger] all[i]).fires(event) by {
            if i < a.len() {
                assert(all[i] == a[i]);
            } else {
                assert(all[i] == rules.last().bindings[i - a.len()]);
            }
        }
    }
}

/// Where no rule for the context binds the event, it resolves to nothing.
pub proof fn lemma_unbound(rules: Seq<RuleModel>, ctx: KeyContext, event: KeyEvent)
    requires
        forall|i: int|
            0 <= i < rules.len() && (#[trigger] rules[i]).covers(ctx) ==> none_fires(
                rules[i].bindings,
                event,
            ),
    ensures
        first_action(ranked(rules, ctx), event) is None,
{
    let a = graded(rules, ctx, Specificity::SpecificNavigation);
    let b = graded(rules, ctx, Specificity::AnyNavigation);
    let c = graded(rules, ctx, Specificity::SpecificEditing);
    let d = graded(rules, ctx, Specificity::AnyEditing);
    lemma_graded_none_fires(rules, ctx, Specificity::SpecificNavigation, event);
    lemma_graded_none_fires(rules, ctx, Specificity::AnyNavigation, event);
    lemma_graded_none_fires(rules, ctx, Specificity::SpecificEditing, event);
    lemma_graded_none_fires(rules, ctx, Specificity::AnyEditing, event);
    lemma_none_fires(a, event);
    lemma_none_fires(b, event);
    lemma_none_fires(c, event);
    lemma_none_fires(d, event);
    lemma_first_action_concat(a, b, event);
    lemma_first_action_concat(a + b, c, event);
    lemma_first_action_concat(a + b + c, d, event);
}

/// A key fires a plain trigger only without modifiers, and a trigger with
/// modifiers where at least those are held.
pub proof fn lemma_triggers_fire_on_their_key(
    c: char,
    code: KeyCode,
    mods: KeyModifiers,
    event: KeyEvent,
)
    ensures
        KeyTrigger::Char(c).fires(event) <==> event.code == KeyCode::Char(c) && event.modifiers
            == KeyModifiers::none(),
        KeyTrigger::Code(code).fires(event) <==> event.code == code && event.modifiers
            == KeyModifiers::none(),
        KeyTrigger::Modified(mods, code).fires(event) ==> event.code == code,
        event.code == code && event.modifiers == mods ==> KeyTrigger::Modified(mods, code).fires(
            event,
        ),
        mods.control && !event.modifiers.control ==> !KeyTrigger::Modified(mods, code).fires(event),
        mods.alt && !event.modifiers.alt ==> !KeyTrigger::Modified(mods, code).fires(event),
        mods.shift && !event.modifiers.shift ==> !KeyTrigger::Modified(mods, code).fires(event),
        mods == KeyModifiers::none() && event.code == code ==> KeyTrigger::Modified(
            mods,
            code,
        ).fires(event),
{
}

/// A rule speaks of its own screen alone, of a field being edited or of none as
/// it says, and where it names a focus of that focus alone.
pub proof fn lemma_rules_keep_to_their_place(rule: RuleModel, ctx: KeyContext)
    ensures
        rule.covers(ctx) ==> rule.screen == ctx.screen,
        rule.covers(ctx) && rule.focus is Some ==> rule.focus->0 == ctx.focus,
        rule.covers(ctx) && rule.editing is Navigation ==> ctx.editing is None,
        rule.covers(ctx) && rule.editing is AnyField ==> ctx.editing is Some,
        rule.covers(ctx) ==> (rule.editing matches EditingMatch::SpecificField(field)
            ==> ctx.editing == Some(field)),
        rule.screen == ctx.screen && rule.focus is None && rule.editing is Navigation
            && ctx.editing is None ==> rule.covers(ctx),
        rule.screen == ctx.screen && rule.focus is None && rule.editing is AnyField
            && ctx.editing is Some ==> rule.covers(ctx),
        rule.grade(ctx) is Some <==> rule.covers(ctx),
{
}

/// A key does what the first binding says that it fires.
pub proof fn lemma_first_binding_wins(bindings: Seq<BindingModel>, event: KeyEvent, i: int)
    requires
        0 <= i < bindings.len(),
        bindings[i].fires(event),
        forall|j: int| 0 <= j < i ==> !(#[trigger] bindings[j]).fires(event),
    ensures
        first_action(bindings, event) == Some(bindings[i].action),
    decreases bindings.len(),
{
    let before = bindings.drop_last();
    if i < before.len() {
        assert(before[i] == bindings[i]);
        assert forall|j: int| 0 <= j < i implies !(#[trigger] before[j]).fires(event) by {
            assert(before[j] == bindings[j]);
        }
        lemma_first_binding_wins(before, event, i);
    } else {
        assert forall|j: int| 0 <= j < before.len() implies !(#[trigger] before[j]).fires(
            event,
        ) by {
            assert(before[j] == bindings[j]);
        }
        lemma_none_fires(before, event);
    }
}

proof fn lemma_graded_has(
    rules: Seq<RuleModel>,
    ctx: KeyContext,
    grade: Specificity,
    binding: BindingModel,
)
    ensures
        graded(rules, ctx, grade).contains(binding) <==> exists|r: int|
            0 <= r < rules.len() && (#[trigger] rules[r]).grade(ctx) == Some(grade)
                && rules[r].bindings.contains(binding),
    decreases rules.len(),
{
    if rules.len() > 0 {
        let front = rules.drop_last();
        lemma_graded_has(front, ctx, grade, binding);
        let before = graded(front, ctx, grade);
        let more = if rules.last().grade(ctx) == Some(grade) {
            rules.last().bindings
        } else {
            Seq::empty()
        };
        assert(graded(rules, ctx, grade) == before + more);
        lemma_contains_concat(before, more, binding);
        if before.contains(binding) {
            let r = choose|r: int|
                0 <= r < front.len() && (#[trigger] front[r]).grade(ctx) == Some(grade)
                    && front[r].bindings.contains(binding);
            assert(rules[r] == front[r]);
        }
        if more.contains(binding) {
            assert(rules[rules.len() - 1] == rules.last());
            assert(rules[rules.len() - 1].bindings.contains(binding));
        }
        if exists|r: int|
            0 <= r < rules.len() && (#[trigger] rules[r]).grade(ctx) == Some(grade)
                && rules[r].bindings.contains(binding) {
            let r = choose|r: int|
                0 <= r < rules.len() && (#[trigger] rules[r]).grade(ctx) == Some(grade)
                    && rules[r].bindings.contains(binding);
            if r < front.len() {
                assert(front[r] == rules[r]);
            }
        }
    }
}

proof fn lemma_contains_concat(a: Seq<BindingModel>, b: Seq<BindingModel>, binding: BindingModel)
    ensures
        (a + b).contains(binding) <==> a.contains(binding) || b.contains(binding),
{
    if a.contains(binding) {
        let i = choose|i: int| 0 <= i < a.len() && a[i] == binding;
        assert((a + b)[i] == binding);
    }
    if b.contains(binding) {
        let i = choose|i: int| 0 <= i < b.len() && b[i] == binding;
        assert((a + b)[a.len() + i] == binding);
    }
    if (a + b).contains(binding) {
        let i = choose|i: int| 0 <= i < (a + b).len() && (a + b)[i] == binding;
        if i < a.len() {
            assert(a[i] == binding);
        } else {
            assert(b[i - a.len()] == binding);
        }
    }
}

/// The bindings of a context are exactly those of the rules that cover it.
pub proof fn lemma_bindings_of_covering_rules(
    rules: Seq<RuleModel>,
    ctx: KeyContext,
    binding: BindingModel,
)
    ensures
        ranked(rules, ctx).contains(binding) <==> exists|r: int|
            0 <= r < rules.len() && (#[trigger] rules[r]).covers(ctx)
                && rules[r].bindings.contains(binding),
{
    let a = graded(rules, ctx, Specificity::SpecificNavigation);
    let b = graded(rules, ctx, Specificity::AnyNavigation);
    let c = graded(rules, ctx, Specificity::SpecificEditing);
    let d = graded(rules, ctx, Specificity::AnyEditing);
    lemma_graded_has(rules, ctx, Specificity::SpecificNavigation, binding);
    lemma_graded_has(rules, ctx, Specificity::AnyNavigation, binding);
    lemma_graded_has(rules, ctx, Specificity::SpecificEditing, binding);
    lemma_graded_has(rules, ctx, Specificity::AnyEditing, binding);
    lemma_contains_concat(a, b, binding);
    lemma_contains_concat(a + b, c, binding);
    lemma_contains_concat(a + b + c, d, binding);
    if exists|r: int|
        0 <= r < rules.len() && (#[trigger] rules[r]).covers(ctx) && rules[r].bindings.contains(
            binding,
        ) {
        let r = choose|r: int|
            0 <= r < rules.len() && (#[trigger] rules[r]).covers(ctx)
                && rules[r].bindings.contains(binding);
        assert(rules[r].grade(ctx) == Some(rules[r].specificity()));
    }
    if ranked(rules, ctx).contains(binding) {
        let grade = if a.contains(binding) {
            Specificity::SpecificNavigation
        } else if b.contains(binding) {
            Specificity::AnyNavigation
        } else if c.contains(binding) {
            Specificity::SpecificEditing
        } else {
            Specificity::AnyEditing
        };
        let r = choose|r: int|
            0 <= r < rules.len() && (#[trigger] rules[r]).grade(ctx) == Some(grade)
                && rules[r].bindings.contains(binding);
        assert(rules[r].covers(ctx));
    }
}

proof fn lemma_graded_none(rules: Seq<RuleModel>, ctx: KeyContext, grade: Specificity)
    requires
        forall|r: int| 0 <= r < rules.len() ==> (#[trigger] rules[r]).grade(ctx) != Some(grade),
    ensures
        graded(rules, ctx, grade).len() == 0,
    decreases rules.len(),
{
    if rules.len() > 0 {
        assert forall|r: int| 0 <= r < rules.drop_last().len() implies (
        #[trigger] rules.drop_last()[r]).grade(ctx) != Some(grade) by {
            assert(rules.drop_last()[r] == rules[r]);
        }
        lemma_graded_none(rules.drop_last(), ctx, grade);
        assert(rules[rules.len() - 1] == rules.last());
    }
}

/// While a field is edited, what is bound for that field comes before what is
/// bound for every field.
pub proof fn lemma_edited_field_wins(rules: Seq<RuleModel>, ctx: KeyContext, event: KeyEvent)
    requires
        ctx.editing is Some,
    ensures
        first_action(graded(rules, ctx, Specificity::SpecificEditing), event) is Some
            ==> first_action(ranked(rules, ctx), event) == first_action(
            graded(rules, ctx, Specificity::SpecificEditing),
            event,
        ),
        first_action(graded(rules, ctx, Specificity::SpecificEditing), event) is None
            ==> first_action(ranked(rules, ctx), event) == first_action(
            graded(rules, ctx, Specificity::AnyEditing),
            event,
        ),
{
    let a = graded(rules, ctx, Specificity::SpecificNavigation);
    let b = graded(rules, ctx, Specificity::AnyNavigation);
    let c = graded(rules, ctx, Specificity::SpecificEditing);
    let d = graded(rules, ctx, Specificity::AnyEditing);
    lemma_graded_none(rules, ctx, Specificity::SpecificNavigation);
    lemma_graded_none(rules, ctx, Specificity::AnyNavigation);
    assert(a + b + c =~= c);
    lemma_first_action_concat(c, d, event);
}

/// With nothing edited, what is bound for the field that has the focus comes
/// before what is bound everywhere on the screen.
pub proof fn lemma_focused_field_wins(rules: Seq<RuleModel>, ctx: KeyContext, event: KeyEvent)
    requires
        ctx.editing is None,
    ensures
        first_action(graded(rules, ctx, Specificity::SpecificNavigation), event) is None
            ==> first_action(ranked(rules, ctx), event) == first_action(
            graded(rules, ctx, Specificity::AnyNavigation),
            event,
        ),
{
    let a = graded(rules, ctx, Specificity::SpecificNavigation);
    let b = graded(rules, ctx, Specificity::AnyNavigation);
    let c = graded(rules, ctx, Specificity::SpecificEditing);
    let d = graded(rules, ctx, Specificity::AnyEditing);
    lemma_graded_none(rules, ctx, Specificity::SpecificEditing);
    lemma_graded_none(rules, ctx, Specificity::AnyEditing);
    assert(a + b + c + d =~= a + b);
    lemma_first_action_concat(a, b, event);
}

/// Where every binding of a context that a key fires has the same action, and
/// there is one, that is what the key does.
pub proof fn lemma_bound_alike(
    rules: Seq<RuleModel>,
    ctx: KeyContext,
    event: KeyEvent,
    action: Action,
)
    requires
        exists|r: int, i: int|
            0 <= r < rules.len() && rules[r].covers(ctx) && 0 <= i < rules[r].bindings.len()
                && #[trigger] rules[r].bindings[i].fires(event),
        forall|r: int, i: int|
            0 <= r < rules.len() && rules[r].covers(ctx) && 0 <= i < rules[r].bindings.len()
                && #[trigger] rules[r].bindings[i].fires(event) ==> rules[r].bindings[i].action
                == action,
    ensures
        first_action(ranked(rules, ctx), event) == Some(action),
{
    let all = ranked(rules, ctx);
    let (r, i) = choose|r: int, i: int|
        0 <= r < rules.len() && rules[r].covers(ctx) && 0 <= i < rules[r].bindings.len()
            && #[trigger] rules[r].bindings[i].fires(event);
    lemma_bindings_of_covering_rules(rules, ctx, rules[r].bindings[i]);
    assert(rules[r].bindings.contains(rules[r].bindings[i]));
    let k = choose|k: int| 0 <= k < all.len() && all[k] == rules[r].bindings[i];
    lemma_some_binding_is_first(all, event, k);
    let first = choose|f: int|
        0 <= f < all.len() && (#[trigger] all[f]).fires(event) && forall|j: int|
            0 <= j < f ==> !(#[trigger] all[j]).fires(event);
    lemma_first_binding_wins(all, event, first);
    lemma_bindings_of_covering_rules(rules, ctx, all[first]);
    let q = choose|q: int|
        0 <= q < rules.len() && (#[trigger] rules[q]).covers(ctx) && rules[q].bindings.contains(
            all[first],
        );
    let n = choose|n: int|
        0 <= n < rules[q].bindings.len() && rules[q].bindings[n] == all[first];
    assert(rules[q].bindings[n].fires(event));
}

proof fn lemma_some_binding_is_first(bindings: Seq<BindingModel>, event: KeyEvent, k: int)
    requires
        0 <= k < bindings.len(),
        bindings[k].fires(event),
    ensures
        exists|f: int|
            0 <= f < bindings.len() && (#[trigger] bindings[f]).fires(event) && forall|j: int|
                0 <= j < f ==> !(#[trigger] bindings[j]).fires(event),
    decreases k,
{
    if exists|j: int| 0 <= j < k && (#[trigger] bindings[j]).fires(event) {
        let j = choose|j: int| 0 <= j < k && (#[trigger] bindings[j]).fires(event);
        lemma_some_binding_is_first(bindings, event, j);
    } else {
        assert(bindings[k].fires(event));
    }
}

/// Of the bindings of an action the first is listed, as it is.
pub proof fn lemma_first_is_listed(bindings: Seq<BindingModel>, i: int)
    requires
        0 <= i < bindings.len(),
        forall|j: int| 0 <= j < i ==> (#[trigger] bindings[j]).action != bindings[i].action,
    ensures
        first_of_each(bindings).contains(bindings[i]),
    decreases bindings.len(),
{
    let front = bindings.drop_last();
    let before = first_of_each(front);
    let after = first_of_each(bindings);
    if i < front.len() {
        assert(front[i] == bindings[i]);
        assert forall|j: int| 0 <= j < i implies (#[trigger] front[j]).action
            != front[i].action by {
            assert(front[j] == bindings[j]);
        }
        lemma_first_is_listed(front, i);
        let k = choose|k: int| 0 <= k < before.len() && before[k] == bindings[i];
        assert(after[k] == bindings[i]);
    } else {
        lemma_listed_actions(front, bindings[i].action);
        if has_action(front, bindings[i].action) {
            let j = choose|j: int|
                0 <= j < front.len() && (#[trigger] front[j]).action == bindings[i].action;
            assert(bindings[j].action == bindings[i].action);
        }
        assert(after[before.len() as int] == bindings[i]);
    }
}

/// A hint says the key and what it does, and the shortcuts of an action are the
/// keys of its bindings alone, in their order.
pub proof fn lemma_hints_say_key_and_purpose(
    a: Seq<BindingModel>,
    b: Seq<BindingModel>,
    binding: BindingModel,
    action: Action,
)
    ensures
        binding.hint_text() == binding.hint + " - "@ + binding.description,
        hint_texts(a).len() == a.len(),
        forall|i: int| 0 <= i < a.len() ==> #[trigger] hint_texts(a)[i] == a[i].hint_text(),
        shortcuts(a + b, action) == shortcuts(a, action) + shortcuts(b, action),
        shortcuts(seq![binding], action) == (if binding.action == action {
            seq![(binding.hint, binding.description)]
        } else {
            Seq::empty()
        }),
    decreases b.len(),
{
    let one = seq![binding];
    assert(one.drop_last() =~= Seq::<BindingModel>::empty());
    assert(shortcuts(one.drop_last(), action) =~= Seq::<(Seq<char>, Seq<char>)>::empty());
    assert(shortcuts(one, action) =~= (if binding.action == action {
        seq![(binding.hint, binding.description)]
    } else {
        Seq::empty()
    }));
    if b.len() == 0 {
        assert(a + b =~= a);
        assert(shortcuts(a, action) + shortcuts(b, action) =~= shortcuts(a, action));
    } else {
        lemma_hints_say_key_and_purpose(a, b.drop_last(), binding, action);
        assert((a + b).drop_last() =~= a + b.drop_last());
        assert((a + b).last() == b.last());
        assert(shortcuts(a + b, action) =~= shortcuts(a, action) + shortcuts(b, action));
    }
}

/// The hints of a field come from rules that are for it alone.
pub proof fn lemma_field_hints_are_its_own(
    rules: Seq<RuleModel>,
    ctx: KeyContext,
    binding: BindingModel,
)
    ensures
        of_field(rules, ctx).contains(binding) <==> exists|r: int|
            0 <= r < rules.len() && (#[trigger] rules[r]).covers(ctx) && (
            rules[r].editing is SpecificField || rules[r].editing is Navigation
                && rules[r].focus is Some) && rules[r].bindings.contains(binding),
    decreases rules.len(),
{
    if rules.len() > 0 {
        let front = rules.drop_last();
        lemma_field_hints_are_its_own(front, ctx, binding);
        let last = rules.last();
        let its_own = last.covers(ctx) && (last.editing is SpecificField || last.editing
            is Navigation && last.focus is Some);
        let more = if its_own {
            last.bindings
        } else {
            Seq::empty()
        };
        assert(of_field(rules, ctx) == of_field(front, ctx) + more);
        lemma_contains_concat(of_field(front, ctx), more, binding);
        if of_field(front, ctx).contains(binding) {
            let r = choose|r: int|
                0 <= r < front.len() && (#[trigger] front[r]).covers(ctx) && (
                front[r].editing is SpecificField || front[r].editing is Navigation
                    && front[r].focus is Some) && front[r].bindings.contains(binding);
            assert(rules[r] == front[r]);
        }
        if more.contains(binding) {
            assert(rules[rules.len() - 1] == last);
            assert(rules[rules.len() - 1].bindings.contains(binding));
        }
        if exists|r: int|
            0 <= r < rules.len() && (#[trigger] rules[r]).covers(ctx) && (
            rules[r].editing is SpecificField || rules[r].editing is Navigation
                && rules[r].focus is Some) && rules[r].bindings.contains(binding) {
            let r = choose|r: int|
                0 <= r < rules.len() && (#[trigger] rules[r]).covers(ctx) && (
                rules[r].editing is SpecificField || rules[r].editing is Navigation
                    && rules[r].focus is Some) && rules[r].bindings.contains(binding);
            if r < front.len() {
                assert(front[r] == rules[r]);
            }
        }
    }
}

} // verus!
