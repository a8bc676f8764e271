//! Targets: references to tasks, addressed through a scope.

use crate::text::{chars_of, push_char, string_of};
use vstd::prelude::*;
use vstd::std_specs::cmp::PartialEqSpecImpl;
use vstd::string::StringExecFns;

verus! {

/// How a target selects the projects whose task it names.
#[derive(Debug)]
pub enum TargetScope {
    /// Every project (`:task`).
    All,
    /// The direct dependencies of the current project (`^:task`).
    Deps,
    /// The current project (`~:task`).
    OwnSelf,
    /// One project, named by a locator (`locator:task`).
    Project(String),
    /// Every project that carries a tag (`#tag:task`).
    Tag(String),
}

/// The mathematical value of a [`TargetScope`].
pub enum ScopeView {
    All,
    Deps,
    OwnSelf,
    Project(Seq<char>),
    Tag(Seq<char>),
}

impl View for TargetScope {
    type V = ScopeView;

    open spec fn view(&self) -> ScopeView {
        match self {
            TargetScope::All => ScopeView::All,
            TargetScope::Deps => ScopeView::Deps,
            TargetScope::OwnSelf => ScopeView::OwnSelf,
            TargetScope::Project(locator) => ScopeView::Project(locator@),
            TargetScope::Tag(tag) => ScopeView::Tag(tag@),
        }
    }
}

impl Clone for TargetScope {
    fn clone(&self) -> (r: Self)
        ensures
            r == *self,
    {
        match self {
            TargetScope::All => TargetScope::All,
            TargetScope::Deps => TargetScope::Deps,
            TargetScope::OwnSelf => TargetScope::OwnSelf,
            TargetScope::Project(locator) => TargetScope::Project(locator.clone()),
            TargetScope::Tag(tag) => TargetScope::Tag(tag.clone()),
        }
    }
}

impl PartialEq for TargetScope {
    fn eq(&self, other: &Self) -> (r: bool) {
        match (self, other) {
            (TargetScope::All, TargetScope::All) => true,
            (TargetScope::Deps, TargetScope::Deps) => true,
            (TargetScope::OwnSelf, TargetScope::OwnSelf) => true,
            (TargetScope::Project(a), TargetScope::Project(b)) => *a == *b,
            (TargetScope::Tag(a), TargetScope::Tag(b)) => *a == *b,
            _ => false,
        }
    }
}

impl PartialEqSpecImpl for TargetScope {
    open spec fn obeys_eq_spec() -> bool {
        true
    }

    open spec fn eq_spec(&self, other: &Self) -> bool {
        self@ == other@
    }
}

/// A reference to a task: a scope and the task's identifier.
#[derive(Debug)]
pub struct Target {
    pub scope: TargetScope,
    pub task_id: String,
}

/// The mathematical value of a [`Target`].
pub struct TargetView {
    pub scope: ScopeView,
    pub task_id: Seq<char>,
}

impl View for Target {
    type V = TargetView;

    open spec fn view(&self) -> TargetView {
        TargetView { scope: self.scope@, task_id: self.task_id@ }
    }
}

/// The fully qualified target of task `task_id` in project `project_id`.
pub open spec fn qualified(project_id: Seq<char>, task_id: Seq<char>) -> TargetView {
    TargetView { scope: ScopeView::Project(project_id), task_id }
}

/// How a scope is written in front of the colon of a target: nothing for all
/// projects, `^` for the dependencies, `~` for the own project, the locator for a
/// named project, `#` and the tag for a tag.
pub open spec fn scope_text(scope: ScopeView) -> Seq<char> {
    match scope {
        ScopeView::All => Seq::empty(),
        ScopeView::Deps => seq!['^'],
        ScopeView::OwnSelf => seq!['~'],
        ScopeView::Project(locator) => locator,
        ScopeView::Tag(tag) => seq!['#'] + tag,
    }
}

/// How a target is written: the scope, a colon, the task's identifier.
pub open spec fn target_text(target: TargetView) -> Seq<char> {
    scope_text(target.scope) + seq![':'] + target.task_id
}

/// The scope that is written as `text`.
pub open spec fn scope_of(text: Seq<char>) -> ScopeView {
    if text.len() == 0 {
        ScopeView::All
    } else if text == seq!['^'] {
        ScopeView::Deps
    } else if text == seq!['~'] {
        ScopeView::OwnSelf
    } else if text[0] == '#' {
        ScopeView::Tag(text.skip(1))
    } else {
        ScopeView::Project(text)
    }
}

/// The position of the first colon of `text` at or after `from`.
pub open spec fn colon_position(text: Seq<char>, from: int) -> Option<int>
    decreases text.len() - from,
{
    if from < 0 || from >= text.len() {
        None
    } else if text[from] == ':' {
        Some(from)
    } else {
        colon_position(text, from + 1)
    }
}

/// The target that is written as `text`: what stands before the first colon is
/// the scope, what follows it the task's identifier. A text without a colon is
/// no target.
pub open spec fn parsed_target(text: Seq<char>) -> Option<TargetView> {
    match colon_position(text, 0) {
        None => None,
        Some(i) => Some(TargetView { scope: scope_of(text.take(i)), task_id: text.skip(i + 1) }),
    }
}

/// Whether the scope is read back as itself from the way it is written: a
/// locator is not empty, is neither `^` nor `~`, does not begin with `#` and has
/// no colon; a tag has no colon.
pub open spec fn scope_readable(scope: ScopeView) -> bool {
    match scope {
        ScopeView::Project(locator) => locator.len() > 0 && locator != seq!['^'] && locator
            != seq!['~'] && locator[0] != '#' && !locator.contains(':'),
        ScopeView::Tag(tag) => !tag.contains(':'),
        _ => true,
    }
}

proof fn lemma_colon_after(head: Seq<char>, tail: Seq<char>, from: int)
    requires
        0 <= from <= head.len(),
        !head.contains(':'),
    ensures
        colon_position(head + seq![':'] + tail, from) == Some(head.len() as int),
    decreases head.len() - from,
{
    let text = head + seq![':'] + tail;
    if from < head.len() {
        assert(text[from] == head[from]);
        assert(head.contains(head[from]));
        lemma_colon_after(head, tail, from + 1);
    } else {
        assert(text[from] == ':');
    }
}

/// A target is read back as itself from the way it is written, if its scope is.
pub proof fn lemma_target_text_parses(target: TargetView)
    requires
        scope_readable(target.scope),
    ensures
        parsed_target(target_text(target)) == Some(target),
{
    let head = scope_text(target.scope);
    let text = target_text(target);
    assert(!head.contains(':')) by {
        if head.contains(':') {
            let i = choose|i: int| 0 <= i < head.len() && head[i] == ':';
            match target.scope {
                ScopeView::Tag(tag) => {
                    assert(tag[i - 1] == ':');
                    assert(tag.contains(':'));
                },
                _ => {},
            }
        }
    }
    lemma_colon_after(head, target.task_id, 0);
    assert(text.take(head.len() as int) =~= head);
    assert(text.skip(head.len() as int + 1) =~= target.task_id);
    match target.scope {
        ScopeView::Tag(tag) => {
            assert(head[0] == '#');
            assert(head.skip(1) =~= tag);
            assert(head != seq!['^'] && head != seq!['~']) by {
                assert(seq!['^'][0] == '^' && seq!['~'][0] == '~');
            }
        },
        ScopeView::Deps => {
            assert(head[0] == '^');
        },
        ScopeView::OwnSelf => {
            assert(head[0] == '~');
            assert(head != seq!['^']) by {
                assert(seq!['^'][0] == '^');
            }
        },
        _ => {},
    }
}

impl Target {
    /// The fully qualified target of a task in a named project.
    pub fn new(project_id: &str, task_id: &str) -> (t: Target)
        ensures
            t@ == qualified(project_id@, task_id@),
    {
        Target { scope: TargetScope::Project(project_id.to_owned()), task_id: task_id.to_owned() }
    }

    /// Reads a target: `:task`, `^:task`, `~:task`, `locator:task` or `#tag:task`.
    pub fn parse(text: &str) -> (r: Option<Target>)
        ensures
            match r {
                Some(t) => parsed_target(text@) == Some(t@),
                None => parsed_target(text@) is None,
            },
    {
        let chars = chars_of(text);
        let mut i: usize = 0;
        while i < chars.len() && chars[i] != ':'
            invariant
                0 <= i <= chars.len(),
                colon_position(chars@, 0) == colon_position(chars@, i as int),
            decreases chars.len() - i,
        {
            i += 1;
        }
        if i == chars.len() {
            return None;
        }
        let task_id = string_of(&chars, i + 1, chars.len());
        assert(chars@.take(i as int) =~= chars@.subrange(0, i as int));
        assert(chars@.skip(i + 1) =~= chars@.subrange(i + 1, chars.len() as int));
        let ghost head = chars@.take(i as int);
        let scope = if i == 0 {
            TargetScope::All
        } else if i == 1 && chars[0] == '^' {
            assert(head =~= seq!['^']);
            TargetScope::Deps
        } else if i == 1 && chars[0] == '~' {
            assert(head =~= seq!['~']);
            assert(head != seq!['^']) by {
                assert(seq!['^'][0] == '^');
            }
            TargetScope::OwnSelf
        } else if chars[0] == '#' {
            assert(head != seq!['^'] && head != seq!['~']) by {
                assert(seq!['^'][0] == '^' && seq!['~'][0] == '~');
            }
            assert(head.skip(1) =~= chars@.subrange(1, i as int));
            TargetScope::Tag(string_of(&chars, 1, i))
        } else {
            assert(head != seq!['^'] && head != seq!['~']) by {
                assert(seq!['^'][0] == '^' && seq!['~'][0] == '~');
                assert(seq!['^'].len() == 1 && seq!['~'].len() == 1);
            }
            TargetScope::Project(string_of(&chars, 0, i))
        };
        Some(Target { scope, task_id })
    }

    /// Writes the target: the scope, a colon, the task's identifier.
    pub fn format(&self) -> (r: String)
        ensures
            r@ == target_text(self@),
    {
        let mut r = String::new();
        match &self.scope {
            TargetScope::All => {},
            TargetScope::Deps => {
                push_char(&mut r, '^');
            },
            TargetScope::OwnSelf => {
                push_char(&mut r, '~');
            },
            TargetScope::Project(locator) => {
                r.append(locator.as_str());
            },
            TargetScope::Tag(tag) => {
                push_char(&mut r, '#');
                r.append(tag.as_str());
            },
        }
        assert(r@ =~= scope_text(self.scope@));
        push_char(&mut r, ':');
        r.append(self.task_id.as_str());
        assert(r@ =~= target_text(self@));
        r
    }
}

impl Clone for Target {
    fn clone(&self) -> (r: Self)
        ensures
            r == *self,
    {
        Target { scope: self.scope.clone(), task_id: self.task_id.clone() }
    }
}

impl PartialEq for Target {
    fn eq(&self, other: &Self) -> (r: bool) {
        self.scope == other.scope && self.task_id == other.task_id
    }
}

impl PartialEqSpecImpl for Target {
    open spec fn obeys_eq_spec() -> bool {
        true
    }

    open spec fn eq_spec(&self, other: &Self) -> bool {
        self@ == other@
    }
}

} // verus!
