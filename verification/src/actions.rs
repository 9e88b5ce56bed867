//! User actions, their execution classes, and the ordering rules the
//! execution engine enforces: order validation and the order-preserving
//! partition into background and main work.

use vstd::prelude::*;

verus! {

/// A user-authored action.
#[derive(Debug)]
pub enum Action {
    /// A shortcut chord, e.g. `"Ctrl A"`.
    Shortcut(String),
    /// Literal text typed character by character.
    Text(String),
    /// Literal text followed by an enter key.
    Line(String),
    /// A pause of the given number of milliseconds.
    Pause(u64),
    /// Opens a URL with the default handler.
    OpenUrl(String),
    /// Records the time of the last action in the repository.
    CustomHomeAction,
    /// Spawns a detached shell command.
    Command(String),
}

impl Clone for Action {
    fn clone(&self) -> (r: Self)
        ensures
            r == *self,
    {
        match self {
            Action::Shortcut(s) => Action::Shortcut(s.clone()),
            Action::Text(s) => Action::Text(s.clone()),
            Action::Line(s) => Action::Line(s.clone()),
            Action::Pause(ms) => Action::Pause(*ms),
            Action::OpenUrl(s) => Action::OpenUrl(s.clone()),
            Action::CustomHomeAction => Action::CustomHomeAction,
            Action::Command(s) => Action::Command(s.clone()),
        }
    }
}

/// The thread class an action runs on.
#[derive(Debug, PartialEq, Eq, Structural, Clone, Copy)]
pub enum ExecutionThread {
    Main,
    Background,
}

/// The execution class of an action: only the home action must run on
/// the interactive thread.
pub open spec fn action_thread(a: Action) -> ExecutionThread {
    match a {
        Action::CustomHomeAction => ExecutionThread::Main,
        _ => ExecutionThread::Background,
    }
}

impl Action {
    /// The thread class this action runs on.
    pub fn thread(&self) -> (r: ExecutionThread)
        ensures
            r == action_thread(*self),
    {
        match self {
            Action::CustomHomeAction => ExecutionThread::Main,
            _ => ExecutionThread::Background,
        }
    }

    /// Whether this action asks for a delay before the list runs.
    pub fn is_delayed(&self) -> (r: bool)
        ensures
            r == (*self matches Action::Pause(_)),
    {
        matches!(self, Action::Pause(_))
    }
}

/// A list is well-ordered when no background action follows a main
/// action: background work must front-load.
pub open spec fn order_valid_spec(s: Seq<Action>) -> bool {
    forall|i: int, j: int|
        0 <= i < j < s.len() && action_thread(#[trigger] s[i]) == ExecutionThread::Main
            ==> action_thread(#[trigger] s[j]) != ExecutionThread::Background
}

/// Whether some action of the list asks for a delay.
pub open spec fn list_delayed_spec(s: Seq<Action>) -> bool {
    exists|i: int| 0 <= i < s.len() && (#[trigger] s[i]) matches Action::Pause(_)
}

/// The background-class actions of a list, in original order.
pub open spec fn background_of(s: Seq<Action>) -> Seq<Action> {
    s.filter(|a: Action| action_thread(a) == ExecutionThread::Background)
}

/// The main-class actions of a list, in original order.
pub open spec fn main_of(s: Seq<Action>) -> Seq<Action> {
    s.filter(|a: Action| action_thread(a) == ExecutionThread::Main)
}

/// Ordering and partition rules of an action list.
pub trait ActionList {
    /// The actions of the list, as a sequence.
    spec fn actions(&self) -> Seq<Action>;

    /// Whether the list keeps all background work before main work.
    fn is_order_valid(&self) -> (r: bool)
        ensures
            r == order_valid_spec(self.actions()),
    ;

    /// Whether the list contains a pause.
    fn is_delayed(&self) -> (r: bool)
        ensures
            r == list_delayed_spec(self.actions()),
    ;

    /// Partitions the list into background and main actions, keeping
    /// the original relative order within each class.
    fn split(&self) -> (r: (Vec<Action>, Vec<Action>))
        ensures
            r.0@ == background_of(self.actions()),
            r.1@ == main_of(self.actions()),
    ;
}

impl ActionList for Vec<Action> {
    open spec fn actions(&self) -> Seq<Action> {
        self@
    }

    fn is_order_valid(&self) -> (r: bool)
        ensures
            r == order_valid_spec(self@),
    {
        let n = self.len();
        let ghost mut main_at: int = 0;
        let mut seen_main = false;
        let mut i: usize = 0;
        while i < n
            invariant
                n == self@.len(),
                i <= n,
                seen_main ==> 0 <= main_at < i && action_thread(self@[main_at])
                    == ExecutionThread::Main,
                !seen_main ==> forall|k: int|
                    0 <= k < i ==> action_thread(#[trigger] self@[k]) != ExecutionThread::Main,
                order_valid_spec(self@.take(i as int)),
            decreases n - i,
        {
            let t = self[i].thread();
            if seen_main && t == ExecutionThread::Background {
                proof {
                    assert(!order_valid_spec(self@)) by {
                        assert(action_thread(self@[main_at]) == ExecutionThread::Main
                            && action_thread(self@[i as int]) == ExecutionThread::Background);
                    }
                }
                return false;
            }
            if t == ExecutionThread::Main {
                proof {
                    main_at = i as int;
                }
                seen_main = true;
            }
            proof {
                let pre = self@.take(i as int);
                let cur = self@.take(i + 1);
                assert(forall|k: int| 0 <= k < i ==> cur[k] == pre[k]);
                assert(cur[i as int] == self@[i as int]);
                assert(order_valid_spec(cur)) by {
                    assert(forall|a: int, b: int|
                        0 <= a < b < cur.len() && action_thread(#[trigger] cur[a])
                            == ExecutionThread::Main ==> action_thread(#[trigger] cur[b])
                            != ExecutionThread::Background);
                }
            }
            i += 1;
        }
        proof {
            assert(self@.take(n as int) =~= self@);
        }
        true
    }

    fn is_delayed(&self) -> (r: bool)
        ensures
            r == list_delayed_spec(self@),
    {
        let n = self.len();
        let mut i: usize = 0;
        while i < n
            invariant
                n == self@.len(),
                i <= n,
                forall|k: int| 0 <= k < i ==> !((#[trigger] self@[k]) matches Action::Pause(_)),
            decreases n - i,
        {
            if self[i].is_delayed() {
                return true;
            }
            i += 1;
        }
        false
    }

    fn split(&self) -> (r: (Vec<Action>, Vec<Action>))
        ensures
            r.0@ == background_of(self@),
            r.1@ == main_of(self@),
    {
        let ghost bg_pred = |a: Action| action_thread(a) == ExecutionThread::Background;
        let ghost main_pred = |a: Action| action_thread(a) == ExecutionThread::Main;
        let mut background_actions: Vec<Action> = Vec::new();
        let mut main_actions: Vec<Action> = Vec::new();
        let n = self.len();
        let mut i: usize = 0;
        proof {
            reveal(Seq::filter);
            assert(self@.take(0).filter(bg_pred) =~= background_actions@);
            assert(self@.take(0).filter(main_pred) =~= main_actions@);
        }
        while i < n
            invariant
                n == self@.len(),
                i <= n,
                background_actions@ == self@.take(i as int).filter(bg_pred),
                main_actions@ == self@.take(i as int).filter(main_pred),
                bg_pred == (|a: Action| action_thread(a) == ExecutionThread::Background),
                main_pred == (|a: Action| action_thread(a) == ExecutionThread::Main),
            decreases n - i,
        {
            let a = self[i].clone();
            proof {
                reveal(Seq::filter);
                assert(self@.take(i + 1).drop_last() =~= self@.take(i as int));
                assert(self@.take(i + 1).last() == self@[i as int]);
            }
            match a.thread() {
                ExecutionThread::Background => background_actions.push(a),
                ExecutionThread::Main => main_actions.push(a),
            }
            i += 1;
        }
        proof {
            assert(self@.take(n as int) =~= self@);
        }
        (background_actions, main_actions)
    }
}

/// Law: the split partition is total and disjoint — every action of the
/// list lands in exactly one of the two result lists, so the two lists'
/// original index sets reconstruct the whole list with no overlap; order
/// within each list is original order, since each is a filter of the
/// list.
pub proof fn lemma_split_total(s: Seq<Action>)
    ensures
        background_of(s).len() + main_of(s).len() == s.len(),
        forall|i: int|
            0 <= i < s.len() ==> (action_thread(#[trigger] s[i]) == ExecutionThread::Background
                <==> action_thread(s[i]) != ExecutionThread::Main),
    decreases s.len(),
{
    reveal(Seq::filter);
    if s.len() > 0 {
        lemma_split_total(s.drop_last());
    }
}

/// Law: in the engine's run order — the background list in full, then
/// the main list — every background action stands strictly before every
/// main action, whatever thread each list runs on.
pub proof fn lemma_background_before_main(s: Seq<Action>)
    ensures
        forall|i: int|
            0 <= i < background_of(s).len() ==> action_thread(
                #[trigger] (background_of(s) + main_of(s))[i],
            ) == ExecutionThread::Background,
        forall|j: int|
            background_of(s).len() <= j < background_of(s).len() + main_of(s).len()
                ==> action_thread(#[trigger] (background_of(s) + main_of(s))[j])
                == ExecutionThread::Main,
{
    let bg_pred = |a: Action| action_thread(a) == ExecutionThread::Background;
    let main_pred = |a: Action| action_thread(a) == ExecutionThread::Main;
    let run = background_of(s) + main_of(s);
    assert forall|i: int| 0 <= i < background_of(s).len() implies action_thread(
        #[trigger] run[i],
    ) == ExecutionThread::Background by {
        s.lemma_filter_pred(bg_pred, i);
    }
    assert forall|j: int|
        background_of(s).len() <= j < background_of(s).len() + main_of(s).len() implies action_thread(
        #[trigger] run[j],
    ) == ExecutionThread::Main by {
        s.lemma_filter_pred(main_pred, j - background_of(s).len());
    }
}

} // verus!
