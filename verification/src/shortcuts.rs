//! The global shortcuts that Fennec registers and what each one does.
use vstd::prelude::*;
use crate::config::{CustomAction, FennecConfig};
use crate::prompt::{custom_action_id, custom_id_of, pairs_view, ACTION_CORRECT};

verus! {

broadcast use vstd::string::group_string_axioms;

// ---------------------------------------------------------------------------
// Shortcuts of custom actions
// ---------------------------------------------------------------------------

/// (shortcut, action id) for each custom action that has a shortcut, in order.
pub open spec fn shortcut_bindings(actions: Seq<CustomAction>) -> Seq<(Seq<char>, Seq<char>)>
    decreases actions.len(),
{
    if actions.len() == 0 {
        Seq::empty()
    } else {
        let a = actions.last();
        shortcut_bindings(actions.drop_last()) + match a.shortcut {
            Some(sc) => seq![(sc@, custom_id_of(a))],
            None => Seq::empty(),
        }
    }
}

/// The custom actions that have a shortcut, as a predicate.
pub open spec fn has_shortcut() -> spec_fn(CustomAction) -> bool {
    |a: CustomAction| a.shortcut is Some
}

/// Each custom action with a shortcut gets exactly one binding, in order,
/// pairing its shortcut with `custom_<id>`; no other field of the action
/// matters, and actions without a shortcut get none.
pub proof fn lemma_bindings_cover(actions: Seq<CustomAction>)
    ensures
        shortcut_bindings(actions).len() == actions.filter(has_shortcut()).len(),
        forall|j: int|
            0 <= j < shortcut_bindings(actions).len() ==> #[trigger] shortcut_bindings(actions)[j]
                == (actions.filter(has_shortcut())[j].shortcut->0@, "custom_"@ + actions.filter(
                has_shortcut(),
            )[j].id@),
        forall|k: int|
            0 <= k < actions.len() && (#[trigger] actions[k]).shortcut is Some ==> exists|j: int|
                0 <= j < shortcut_bindings(actions).len() && shortcut_bindings(actions)[j] == (
                    actions[k].shortcut->0@,
                    "custom_"@ + actions[k].id@,
                ),
    decreases actions.len(),
{
    let p = has_shortcut();
    if actions.len() == 0 {
        reveal(Seq::filter);
        assert(actions.filter(p) =~= Seq::<CustomAction>::empty());
    } else {
        let t = actions.drop_last();
        let a = actions.last();
        lemma_bindings_cover(t);
        assert(t.push(a) =~= actions);
        t.lemma_filter_push(a, p);
        let bt = shortcut_bindings(t);
        let b = shortcut_bindings(actions);
        assert forall|j: int| 0 <= j < bt.len() implies b[j] == bt[j] by {}
        assert forall|k: int|
            0 <= k < actions.len() && (#[trigger] actions[k]).shortcut is Some implies exists|j: int|
                0 <= j < b.len() && b[j] == (actions[k].shortcut->0@, "custom_"@ + actions[k].id@) by {
            if k < t.len() {
                assert(actions[k] == t[k]);
                let j = choose|j: int|
                    0 <= j < bt.len() && bt[j] == (t[k].shortcut->0@, "custom_"@ + t[k].id@);
                assert(b[j] == bt[j]);
            } else {
                assert(b[bt.len() as int] == (a.shortcut->0@, custom_id_of(a)));
            }
        }
    }
}

/// The global shortcuts to register for custom actions.
pub fn custom_shortcuts(config: &FennecConfig) -> (r: Vec<(String, String)>)
    ensures
        pairs_view(r@) == shortcut_bindings(config.custom_actions@),
        r@.len() == config.custom_actions@.filter(has_shortcut()).len(),
        forall|k: int|
            0 <= k < config.custom_actions@.len() && (
            #[trigger] config.custom_actions@[k]).shortcut is Some ==> exists|j: int|
                0 <= j < r@.len() && r@[j].0@ == config.custom_actions@[k].shortcut->0@ && r@[j].1@
                    == "custom_"@ + config.custom_actions@[k].id@,
{
    let actions = &config.custom_actions;
    let mut r: Vec<(String, String)> = Vec::new();
    let mut i: usize = 0;
    while i < actions.len()
        invariant
            i <= actions@.len(),
            actions == &config.custom_actions,
            pairs_view(r@) =~= shortcut_bindings(actions@.take(i as int)),
        decreases actions@.len() - i,
    {
        let a = &actions[i];
        proof {
            assert(actions@.take(i + 1).drop_last() =~= actions@.take(i as int));
            assert(actions@.take(i + 1).last() == actions@[i as int]);
        }
        match &a.shortcut {
            Some(sc) => {
                let id = custom_action_id(a);
                r.push((sc.clone(), id));
            },
            None => {},
        }
        i = i + 1;
    }
    assert(actions@.take(actions@.len() as int) =~= actions@);
    proof {
        let acts = config.custom_actions@;
        lemma_bindings_cover(acts);
        assert forall|k: int|
            0 <= k < acts.len() && (#[trigger] acts[k]).shortcut is Some implies exists|j: int|
                0 <= j < r@.len() && r@[j].0@ == acts[k].shortcut->0@ && r@[j].1@ == "custom_"@
                    + acts[k].id@ by {
            let bs = shortcut_bindings(acts);
            let j = choose|j: int|
                0 <= j < bs.len() && bs[j] == (acts[k].shortcut->0@, "custom_"@ + acts[k].id@);
            assert(pairs_view(r@)[j] == (r@[j].0@, r@[j].1@));
        }
    }
    r
}

/// What a global shortcut does.
pub enum ShortcutTask {
    /// Read the text on the shortcut's thread, then run the action on it.
    Run { action_id: String, select_all: bool },
    /// Write back the text that the last action replaced.
    Undo,
    /// Open the action menu.
    Menu { select_all: bool },
}

/// A key combination and what it does.
pub struct Binding {
    pub shortcut: String,
    pub task: ShortcutTask,
}

/// Whether a binding has the given shortcut and runs `action_id`.
pub open spec fn runs(b: Binding, shortcut: Seq<char>, action_id: Seq<char>, select_all: bool) -> bool {
    &&& b.shortcut@ == shortcut
    &&& b.task matches ShortcutTask::Run { action_id: a, select_all: s } && a@ == action_id && s
        == select_all
}

fn run_binding(shortcut: &String, action_id: String, select_all: bool) -> (b: Binding)
    ensures
        runs(b, shortcut@, action_id@, select_all),
{
    Binding { shortcut: shortcut.clone(), task: ShortcutTask::Run { action_id, select_all } }
}

/// Every global shortcut to register, in order: correct the selection,
/// correct everything, undo, the action menu on the selection, the action
/// menu on everything, then each custom action that has a shortcut, run on
/// the selection.
pub fn shortcut_plan(config: &FennecConfig) -> (r: Vec<Binding>)
    ensures
        r@.len() == 5 + shortcut_bindings(config.custom_actions@).len(),
        runs(r@[0], config.shortcuts.correct@, ACTION_CORRECT@, false),
        runs(r@[1], config.shortcuts.correct_all@, ACTION_CORRECT@, true),
        r@[2].shortcut@ == config.shortcuts.undo@,
        (r@[2].task is Undo),
        r@[3].shortcut@ == config.shortcuts.menu@,
        r@[3].task == (ShortcutTask::Menu { select_all: false }),
        r@[4].shortcut@ == config.shortcuts.menu_all@,
        r@[4].task == (ShortcutTask::Menu { select_all: true }),
        forall|i: int|
            0 <= i < shortcut_bindings(config.custom_actions@).len() ==> runs(
                #[trigger] r@[5 + i],
                shortcut_bindings(config.custom_actions@)[i].0,
                shortcut_bindings(config.custom_actions@)[i].1,
                false,
            ),
{
    let s = &config.shortcuts;
    let mut r: Vec<Binding> = Vec::new();
    r.push(run_binding(&s.correct, String::from_str(ACTION_CORRECT), false));
    r.push(run_binding(&s.correct_all, String::from_str(ACTION_CORRECT), true));
    r.push(Binding { shortcut: s.undo.clone(), task: ShortcutTask::Undo });
    r.push(Binding { shortcut: s.menu.clone(), task: ShortcutTask::Menu { select_all: false } });
    r.push(Binding { shortcut: s.menu_all.clone(), task: ShortcutTask::Menu { select_all: true } });
    let customs = custom_shortcuts(config);
    let ghost cb = shortcut_bindings(config.custom_actions@);
    assert(pairs_view(customs@) == cb);
    let mut i: usize = 0;
    while i < customs.len()
        invariant
            i <= customs@.len(),
            pairs_view(customs@) == cb,
            r@.len() == 5 + i,
            runs(r@[0], s.correct@, ACTION_CORRECT@, false),
            runs(r@[1], s.correct_all@, ACTION_CORRECT@, true),
            r@[2].shortcut@ == s.undo@,
            (r@[2].task is Undo),
            r@[3].shortcut@ == s.menu@,
            r@[3].task == (ShortcutTask::Menu { select_all: false }),
            r@[4].shortcut@ == s.menu_all@,
            r@[4].task == (ShortcutTask::Menu { select_all: true }),
            forall|k: int| 0 <= k < i ==> runs(#[trigger] r@[5 + k], cb[k].0, cb[k].1, false),
        decreases customs@.len() - i,
    {
        let pair = &customs[i];
        assert(cb[i as int] == (pair.0@, pair.1@));
        let b = run_binding(&pair.0, pair.1.clone(), false);
        r.push(b);
        i = i + 1;
    }
    r
}

} // verus!
