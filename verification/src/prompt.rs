//! What Fennec asks the model for each action, the entries of the action
//! menu, and the global shortcuts of custom actions.
use vstd::prelude::*;
use crate::config::{CustomAction, FennecConfig};
use crate::text::str_eq;

verus! {

broadcast use vstd::string::group_string_axioms;

// ---------------------------------------------------------------------------
// First match in a sequence
// ---------------------------------------------------------------------------

/// The index of the first element of `s` that satisfies `p`, if any.
pub open spec fn first_index<A>(s: Seq<A>, p: spec_fn(A) -> bool) -> Option<int>
    decreases s.len(),
{
    if s.len() == 0 {
        None
    } else {
        match first_index(s.drop_last(), p) {
            Some(k) => Some(k),
            None => if p(s.last()) {
                Some(s.len() - 1)
            } else {
                None
            },
        }
    }
}

/// `first_index` finds the first match, and finds none only when nothing
/// matches.
pub proof fn lemma_first_index<A>(s: Seq<A>, p: spec_fn(A) -> bool)
    ensures
        match first_index(s, p) {
            Some(k) => 0 <= k < s.len() && p(s[k]) && forall|j: int| 0 <= j < k ==> !p(s[j]),
            None => forall|j: int| 0 <= j < s.len() ==> !p(s[j]),
        },
    decreases s.len(),
{
    if s.len() > 0 {
        let t = s.drop_last();
        lemma_first_index(t, p);
        match first_index(t, p) {
            Some(k) => {
                assert(s[k] == t[k]);
                assert forall|j: int| 0 <= j < k implies !p(s[j]) by {
                    assert(s[j] == t[j]);
                }
            },
            None => {
                assert forall|j: int| 0 <= j < s.len() - 1 implies !p(s[j]) by {
                    assert(s[j] == t[j]);
                }
            },
        }
    }
}

/// A match with no match before it is the first match.
pub proof fn lemma_first_index_at<A>(s: Seq<A>, p: spec_fn(A) -> bool, i: int)
    requires
        0 <= i < s.len(),
        p(s[i]),
        forall|j: int| 0 <= j < i ==> !p(s[j]),
    ensures
        first_index(s, p) == Some(i),
{
    lemma_first_index(s, p);
}

// ---------------------------------------------------------------------------
// Prompts
// ---------------------------------------------------------------------------

/// Built-in action: fix grammar and spelling.
pub const ACTION_CORRECT: &'static str = "correct";

/// Built-in action: formal tone.
pub const ACTION_FORMAL: &'static str = "formal";

/// Built-in action: casual tone.
pub const ACTION_INFORMAL: &'static str = "informal";

/// Built-in action: shorter text.
pub const ACTION_CONCISE: &'static str = "concise";

/// The action id of a custom action is this prefix followed by its id.
pub const CUSTOM_PREFIX: &'static str = "custom_";

pub const CORRECT_INSTRUCTION: &'static str =
    "Fix any grammar, spelling, and punctuation errors in the following text.";

pub const FORMAL_INSTRUCTION: &'static str =
    "Rewrite the following text in a formal, professional tone.";

pub const INFORMAL_INSTRUCTION: &'static str =
    "Rewrite the following text in a casual, friendly tone.";

pub const CONCISE_INSTRUCTION: &'static str =
    "Make the following text more concise while keeping its meaning.";

/// What follows a built-in instruction, before the text.
pub const BUILTIN_SUFFIX: &'static str =
    " Auto-detect the language and reply in the same language. Return ONLY the corrected text, nothing else.\n\n";

/// What follows the prompt of a custom action, before the text.
pub const CUSTOM_SUFFIX: &'static str =
    "\n\nAuto-detect the language and reply in the same language. Return ONLY the rewritten text, nothing else.\n\n";

/// The action id under which a custom action runs.
pub open spec fn custom_id_of(a: CustomAction) -> Seq<char> {
    CUSTOM_PREFIX@ + a.id@
}

/// Whether a custom action runs under the action id `id`.
pub open spec fn is_custom_for(id: Seq<char>) -> spec_fn(CustomAction) -> bool {
    |a: CustomAction| custom_id_of(a) == id
}

/// The instruction of a built-in action.
pub open spec fn builtin_instruction(id: Seq<char>) -> Option<Seq<char>> {
    if id == ACTION_CORRECT@ {
        Some(CORRECT_INSTRUCTION@)
    } else if id == ACTION_FORMAL@ {
        Some(FORMAL_INSTRUCTION@)
    } else if id == ACTION_INFORMAL@ {
        Some(INFORMAL_INSTRUCTION@)
    } else if id == ACTION_CONCISE@ {
        Some(CONCISE_INSTRUCTION@)
    } else {
        None
    }
}

/// The prompt sent to the model for action `id` on `text`: a built-in
/// instruction, else the prompt of the first custom action with that id,
/// else the correcting instruction.
pub open spec fn prompt_for(actions: Seq<CustomAction>, id: Seq<char>, text: Seq<char>) -> Seq<
    char,
> {
    match builtin_instruction(id) {
        Some(ins) => ins + BUILTIN_SUFFIX@ + text,
        None => match first_index(actions, is_custom_for(id)) {
            Some(k) => actions[k].prompt@ + CUSTOM_SUFFIX@ + text,
            None => CORRECT_INSTRUCTION@ + BUILTIN_SUFFIX@ + text,
        },
    }
}

/// The action id of a custom action.
pub fn custom_action_id(a: &CustomAction) -> (r: String)
    ensures
        r@ == custom_id_of(*a),
{
    String::from_str(CUSTOM_PREFIX).concat(a.id.as_str())
}

/// The position of the first custom action that runs under `action_id`.
pub fn find_custom_action(actions: &Vec<CustomAction>, action_id: &str) -> (r: Option<usize>)
    ensures
        match r {
            Some(i) => i < actions@.len() && first_index(actions@, is_custom_for(action_id@))
                == Some(i as int),
            None => first_index(actions@, is_custom_for(action_id@)) is None,
        },
{
    let ghost p = is_custom_for(action_id@);
    let mut i: usize = 0;
    while i < actions.len()
        invariant
            i <= actions@.len(),
            p == is_custom_for(action_id@),
            forall|j: int| 0 <= j < i ==> !p(#[trigger] actions@[j]),
        decreases actions@.len() - i,
    {
        let id = custom_action_id(&actions[i]);
        if str_eq(id.as_str(), action_id) {
            proof {
                lemma_first_index_at(actions@, p, i as int);
            }
            return Some(i);
        }
        i = i + 1;
    }
    proof {
        lemma_first_index(actions@, p);
        if first_index(actions@, p) is Some {
            let k = first_index(actions@, p)->0;
            assert(p(actions@[k]));
        }
    }
    None
}

/// The prompt for running `action_id` on `text`.
pub fn build_prompt(config: &FennecConfig, action_id: &str, text: &str) -> (r: String)
    ensures
        r@ == prompt_for(config.custom_actions@, action_id@, text@),
        action_id@ == "correct"@ ==> r@ == CORRECT_INSTRUCTION@ + BUILTIN_SUFFIX@ + text@,
        action_id@ == "formal"@ ==> r@ == FORMAL_INSTRUCTION@ + BUILTIN_SUFFIX@ + text@,
        action_id@ == "informal"@ ==> r@ == INFORMAL_INSTRUCTION@ + BUILTIN_SUFFIX@ + text@,
        action_id@ == "concise"@ ==> r@ == CONCISE_INSTRUCTION@ + BUILTIN_SUFFIX@ + text@,
        forall|k: int|
            #![trigger config.custom_actions@[k]]
            0 <= k < config.custom_actions@.len() && "custom_"@ + config.custom_actions@[k].id@
                == action_id@ && (forall|j: int|
                0 <= j < k ==> "custom_"@ + config.custom_actions@[j].id@ != action_id@)
                ==> r@ == config.custom_actions@[k].prompt@ + CUSTOM_SUFFIX@ + text@,
        (action_id@ != "correct"@ && action_id@ != "formal"@ && action_id@ != "informal"@
            && action_id@ != "concise"@ && forall|k: int|
            0 <= k < config.custom_actions@.len() ==> "custom_"@ + (
            #[trigger] config.custom_actions@[k]).id@ != action_id@) ==> r@
            == CORRECT_INSTRUCTION@ + BUILTIN_SUFFIX@ + text@,
{
    proof {
        let acts = config.custom_actions@;
        lemma_builtin_prompts(acts, text@);
        assert forall|k: int|
            #![trigger acts[k]]
            0 <= k < acts.len() && "custom_"@ + acts[k].id@ == action_id@ && (forall|j: int|
                0 <= j < k ==> "custom_"@ + acts[j].id@ != action_id@) implies prompt_for(
            acts,
            action_id@,
            text@,
        ) == acts[k].prompt@ + CUSTOM_SUFFIX@ + text@ by {
            lemma_custom_prompt(acts, action_id@, text@, k);
        }
        if action_id@ != "correct"@ && action_id@ != "formal"@ && action_id@ != "informal"@
            && action_id@ != "concise"@ && forall|k: int|
            0 <= k < acts.len() ==> "custom_"@ + (#[trigger] acts[k]).id@ != action_id@ {
            lemma_unknown_prompt(acts, action_id@, text@);
        }
    }
    let instruction: &str = if str_eq(action_id, ACTION_CORRECT) {
        CORRECT_INSTRUCTION
    } else if str_eq(action_id, ACTION_FORMAL) {
        FORMAL_INSTRUCTION
    } else if str_eq(action_id, ACTION_INFORMAL) {
        INFORMAL_INSTRUCTION
    } else if str_eq(action_id, ACTION_CONCISE) {
        CONCISE_INSTRUCTION
    } else {
        match find_custom_action(&config.custom_actions, action_id) {
            Some(i) => {
                let custom = &config.custom_actions[i];
                return String::from_str(custom.prompt.as_str()).concat(CUSTOM_SUFFIX).concat(
                    text,
                );
            },
            None => CORRECT_INSTRUCTION,
        }
    };
    String::from_str(instruction).concat(BUILTIN_SUFFIX).concat(text)
}

// ---------------------------------------------------------------------------
// Action menu
// ---------------------------------------------------------------------------

pub const LABEL_CORRECT: &'static str = "\u{2728} Smooth it out";

pub const LABEL_FORMAL: &'static str = "\u{1F454} More formal";

pub const LABEL_INFORMAL: &'static str = "\u{1F60E} More casual";

pub const LABEL_CONCISE: &'static str = "\u{2702}\u{FE0F} Make it shorter";

/// The icon of a custom action that has none.
pub const DEFAULT_ICON: &'static str = "\u{26A1}";

/// A sequence of string pairs, each taken by its characters.
pub open spec fn pairs_view(s: Seq<(String, String)>) -> Seq<(Seq<char>, Seq<char>)> {
    s.map_values(|p: (String, String)| (p.0@, p.1@))
}

/// The menu label of a custom action: its icon (or the default one), a
/// space, its label.
pub open spec fn custom_label(a: CustomAction) -> Seq<char> {
    (match a.icon {
        Some(i) => i@,
        None => DEFAULT_ICON@,
    }) + " "@ + a.label@
}

/// The built-in entries of the action menu, as (label, action id).
pub open spec fn builtin_entries() -> Seq<(Seq<char>, Seq<char>)> {
    seq![
        (LABEL_CORRECT@, ACTION_CORRECT@),
        (LABEL_FORMAL@, ACTION_FORMAL@),
        (LABEL_INFORMAL@, ACTION_INFORMAL@),
        (LABEL_CONCISE@, ACTION_CONCISE@),
    ]
}

/// The entries of the action menu: the built-in ones, then one per custom
/// action in order.
pub open spec fn menu_entries(actions: Seq<CustomAction>) -> Seq<(Seq<char>, Seq<char>)> {
    builtin_entries() + actions.map_values(|a: CustomAction| (custom_label(a), custom_id_of(a)))
}

fn string_pair(a: &str, b: &str) -> (r: (String, String))
    ensures
        r.0@ == a@,
        r.1@ == b@,
{
    (String::from_str(a), String::from_str(b))
}

/// The (label, action id) entries of the action menu.
pub fn menu_actions(config: &FennecConfig) -> (r: Vec<(String, String)>)
    ensures
        pairs_view(r@) == menu_entries(config.custom_actions@),
        r@.len() == 4 + config.custom_actions@.len(),
        r@[0].0@ == LABEL_CORRECT@ && r@[0].1@ == "correct"@,
        r@[1].0@ == LABEL_FORMAL@ && r@[1].1@ == "formal"@,
        r@[2].0@ == LABEL_INFORMAL@ && r@[2].1@ == "informal"@,
        r@[3].0@ == LABEL_CONCISE@ && r@[3].1@ == "concise"@,
        forall|k: int|
            0 <= k < config.custom_actions@.len() ==> {
                let a = #[trigger] config.custom_actions@[k];
                &&& r@[4 + k].1@ == "custom_"@ + a.id@
                &&& a.icon matches Some(i) ==> r@[4 + k].0@ == i@ + " "@ + a.label@
                &&& a.icon is None ==> r@[4 + k].0@ == DEFAULT_ICON@ + " "@ + a.label@
            },
{
    let mut r: Vec<(String, String)> = Vec::new();
    r.push(string_pair(LABEL_CORRECT, ACTION_CORRECT));
    r.push(string_pair(LABEL_FORMAL, ACTION_FORMAL));
    r.push(string_pair(LABEL_INFORMAL, ACTION_INFORMAL));
    r.push(string_pair(LABEL_CONCISE, ACTION_CONCISE));
    assert(pairs_view(r@) =~= builtin_entries());
    let actions = &config.custom_actions;
    let ghost f = |a: CustomAction| (custom_label(a), custom_id_of(a));
    let mut i: usize = 0;
    while i < actions.len()
        invariant
            i <= actions@.len(),
            actions == &config.custom_actions,
            f == (|a: CustomAction| (custom_label(a), custom_id_of(a))),
            pairs_view(r@) =~= builtin_entries() + actions@.take(i as int).map_values(f),
        decreases actions@.len() - i,
    {
        let a = &actions[i];
        let icon: &str = match &a.icon {
            Some(ic) => ic.as_str(),
            None => DEFAULT_ICON,
        };
        let label = String::from_str(icon).concat(" ").concat(a.label.as_str());
        let id = custom_action_id(a);
        let ghost old_r = r@;
        r.push((label, id));
        proof {
            assert(f(actions@[i as int]) == (label@, id@));
            assert(pairs_view(r@) =~= pairs_view(old_r).push((label@, id@)));
            assert(actions@.take(i + 1) =~= actions@.take(i as int).push(actions@[i as int]));
            assert(actions@.take(i + 1).map_values(f) =~= actions@.take(i as int).map_values(
                f,
            ).push(f(actions@[i as int])));
        }
        i = i + 1;
    }
    assert(actions@.take(actions@.len() as int) =~= actions@);
    proof {
        lemma_menu_shape(config.custom_actions@);
        assert forall|k: int| 0 <= k < r@.len() implies (#[trigger] r@[k]).0@ == pairs_view(
            r@,
        )[k].0 && r@[k].1@ == pairs_view(r@)[k].1 by {}
        assert forall|k: int|
            #![trigger config.custom_actions@[k]]
            0 <= k < config.custom_actions@.len() implies r@[4 + k].0@
            == menu_entries(config.custom_actions@)[4 + k].0 && r@[4 + k].1@ == menu_entries(
            config.custom_actions@,
        )[4 + k].1 by {
            assert(r@[4 + k].0@ == pairs_view(r@)[4 + k].0);
        }
    }
    r
}

/// An optional string, taken by its characters.
pub open spec fn opt_view(o: Option<String>) -> Option<Seq<char>> {
    match o {
        Some(s) => Some(s@),
        None => None,
    }
}

/// Whether a menu entry has the title `title`.
pub open spec fn has_title(title: Seq<char>) -> spec_fn((Seq<char>, Seq<char>)) -> bool {
    |e: (Seq<char>, Seq<char>)| e.0 == title
}

/// The action id of the first menu entry titled `title`.
pub open spec fn action_for(entries: Seq<(Seq<char>, Seq<char>)>, title: Seq<char>) -> Option<
    Seq<char>,
> {
    match first_index(entries, has_title(title)) {
        Some(k) => Some(entries[k].1),
        None => None,
    }
}

/// The action id of the menu entry that the user picked, found by its title.
pub fn action_for_title(entries: &Vec<(String, String)>, title: &str) -> (r: Option<String>)
    ensures
        opt_view(r) == action_for(pairs_view(entries@), title@),
{
    let ghost es = pairs_view(entries@);
    let ghost p = has_title(title@);
    let mut i: usize = 0;
    while i < entries.len()
        invariant
            i <= entries@.len(),
            es == pairs_view(entries@),
            p == has_title(title@),
            forall|j: int| 0 <= j < i ==> !p(#[trigger] es[j]),
        decreases entries@.len() - i,
    {
        if str_eq(entries[i].0.as_str(), title) {
            proof {
                assert(p(es[i as int]));
                lemma_first_index_at(es, p, i as int);
            }
            return Some(entries[i].1.clone());
        }
        assert(!p(es[i as int]));
        i = i + 1;
    }
    proof {
        lemma_first_index(es, p);
        if first_index(es, p) is Some {
            let k = first_index(es, p)->0;
            assert(p(es[k]));
        }
    }
    None
}

/// Picking a built-in entry of the action menu runs that built-in action,
/// whatever the custom actions are called: the built-in entries come first
/// and their titles differ.
pub proof fn lemma_builtin_menu_picks(actions: Seq<CustomAction>)
    ensures
        action_for(menu_entries(actions), LABEL_CORRECT@) == Some(ACTION_CORRECT@),
        action_for(menu_entries(actions), LABEL_FORMAL@) == Some(ACTION_FORMAL@),
        action_for(menu_entries(actions), LABEL_INFORMAL@) == Some(ACTION_INFORMAL@),
        action_for(menu_entries(actions), LABEL_CONCISE@) == Some(ACTION_CONCISE@),
{
    reveal_strlit("\u{2728} Smooth it out");
    reveal_strlit("\u{1F454} More formal");
    reveal_strlit("\u{1F60E} More casual");
    reveal_strlit("\u{2702}\u{FE0F} Make it shorter");
    let es = menu_entries(actions);
    assert(es[0] == (LABEL_CORRECT@, ACTION_CORRECT@));
    assert(es[1] == (LABEL_FORMAL@, ACTION_FORMAL@));
    assert(es[2] == (LABEL_INFORMAL@, ACTION_INFORMAL@));
    assert(es[3] == (LABEL_CONCISE@, ACTION_CONCISE@));
    assert(LABEL_CORRECT@[0] != LABEL_FORMAL@[0]);
    assert(LABEL_CORRECT@[0] != LABEL_INFORMAL@[0]);
    assert(LABEL_CORRECT@[0] != LABEL_CONCISE@[0]);
    assert(LABEL_FORMAL@[0] != LABEL_INFORMAL@[0]);
    assert(LABEL_FORMAL@[0] != LABEL_CONCISE@[0]);
    assert(LABEL_INFORMAL@[0] != LABEL_CONCISE@[0]);
    lemma_first_index_at(es, has_title(LABEL_CORRECT@), 0);
    lemma_first_index_at(es, has_title(LABEL_FORMAL@), 1);
    lemma_first_index_at(es, has_title(LABEL_INFORMAL@), 2);
    lemma_first_index_at(es, has_title(LABEL_CONCISE@), 3);
}

/// The text to work on is sent exactly as it is, at the very end of the
/// prompt, whatever the action.
pub proof fn lemma_prompt_ends_with_text(actions: Seq<CustomAction>, id: Seq<char>, text: Seq<
    char,
>)
    ensures
        prompt_for(actions, id, text).len() >= text.len(),
        prompt_for(actions, id, text).subrange(
            prompt_for(actions, id, text).len() - text.len(),
            prompt_for(actions, id, text).len() as int,
        ) == text,
{
    let p = prompt_for(actions, id, text);
    let head = p.subrange(0, p.len() - text.len());
    assert(p =~= head + text);
    assert(p.subrange(p.len() - text.len(), p.len() as int) =~= text);
}

/// An action id that is neither built in nor the id of a custom action is
/// run as the correcting action.
pub proof fn lemma_unknown_action_corrects(actions: Seq<CustomAction>, id: Seq<char>, text: Seq<
    char,
>)
    requires
        builtin_instruction(id) is None,
        forall|k: int| 0 <= k < actions.len() ==> custom_id_of(#[trigger] actions[k]) != id,
    ensures
        prompt_for(actions, id, text) == prompt_for(actions, ACTION_CORRECT@, text),
{
    lemma_first_index(actions, is_custom_for(id));
    if first_index(actions, is_custom_for(id)) is Some {
        let k = first_index(actions, is_custom_for(id))->0;
        assert(custom_id_of(actions[k]) == id);
    }
}

/// An action id made for a custom action is never a built-in action id.
pub proof fn lemma_custom_id_not_builtin(id: Seq<char>)
    ensures
        "custom_"@ + id != "correct"@,
        "custom_"@ + id != "formal"@,
        "custom_"@ + id != "informal"@,
        "custom_"@ + id != "concise"@,
{
    reveal_strlit("custom_");
    reveal_strlit("correct");
    reveal_strlit("formal");
    reveal_strlit("informal");
    reveal_strlit("concise");
    let c = "custom_"@ + id;
    assert(c[1] == 'u');
    assert("correct"@[1] == 'o');
    assert("formal"@[1] == 'o');
    assert("informal"@[1] == 'n');
    assert("concise"@[1] == 'o');
}

/// Each built-in action asks for its own instruction, whatever custom actions
/// exist: the instruction, the built-in suffix, then the text.
pub proof fn lemma_builtin_prompts(actions: Seq<CustomAction>, text: Seq<char>)
    ensures
        prompt_for(actions, "correct"@, text) == CORRECT_INSTRUCTION@ + BUILTIN_SUFFIX@ + text,
        prompt_for(actions, "formal"@, text) == FORMAL_INSTRUCTION@ + BUILTIN_SUFFIX@ + text,
        prompt_for(actions, "informal"@, text) == INFORMAL_INSTRUCTION@ + BUILTIN_SUFFIX@ + text,
        prompt_for(actions, "concise"@, text) == CONCISE_INSTRUCTION@ + BUILTIN_SUFFIX@ + text,
{
    reveal_strlit("correct");
    reveal_strlit("formal");
    reveal_strlit("informal");
    reveal_strlit("concise");
    assert("formal"@ != "correct"@) by {
        assert("formal"@.len() != "correct"@.len());
    }
    assert("informal"@ != "correct"@) by {
        assert("informal"@[0] != "correct"@[0]);
    }
    assert("informal"@ != "formal"@) by {
        assert("informal"@.len() != "formal"@.len());
    }
    assert("concise"@ != "correct"@) by {
        assert("concise"@[2] != "correct"@[2]);
    }
    assert("concise"@ != "formal"@) by {
        assert("concise"@.len() != "formal"@.len());
    }
    assert("concise"@ != "informal"@) by {
        assert("concise"@.len() != "informal"@.len());
    }
}

/// A non-built-in id runs the prompt of the first custom action whose
/// `custom_<id>` is that id, followed by the custom suffix and the text.
pub proof fn lemma_custom_prompt(actions: Seq<CustomAction>, id: Seq<char>, text: Seq<char>, k: int)
    requires
        0 <= k < actions.len(),
        "custom_"@ + actions[k].id@ == id,
        forall|j: int| 0 <= j < k ==> "custom_"@ + actions[j].id@ != id,
    ensures
        prompt_for(actions, id, text) == actions[k].prompt@ + CUSTOM_SUFFIX@ + text,
{
    lemma_custom_id_not_builtin(actions[k].id@);
    let p = is_custom_for(id);
    assert(p(actions[k]));
    assert forall|j: int| 0 <= j < k implies !p(actions[j]) by {}
    lemma_first_index_at(actions, p, k);
}

/// An id that is neither built in nor any custom action's id gets the
/// grammar fix.
pub proof fn lemma_unknown_prompt(actions: Seq<CustomAction>, id: Seq<char>, text: Seq<char>)
    requires
        id != "correct"@ && id != "formal"@ && id != "informal"@ && id != "concise"@,
        forall|k: int| 0 <= k < actions.len() ==> "custom_"@ + (#[trigger] actions[k]).id@ != id,
    ensures
        prompt_for(actions, id, text) == CORRECT_INSTRUCTION@ + BUILTIN_SUFFIX@ + text,
{
    let p = is_custom_for(id);
    lemma_first_index(actions, p);
    if first_index(actions, p) is Some {
        let k = first_index(actions, p)->0;
        assert(p(actions[k]));
    }
}

/// The action menu has the four built-in entries and then exactly one entry
/// per custom action, in order, whatever its other fields: its icon (or the
/// default one), a space and its label, running `custom_<id>`.
pub proof fn lemma_menu_shape(actions: Seq<CustomAction>)
    ensures
        menu_entries(actions).len() == 4 + actions.len(),
        menu_entries(actions)[0] == (LABEL_CORRECT@, "correct"@),
        menu_entries(actions)[1] == (LABEL_FORMAL@, "formal"@),
        menu_entries(actions)[2] == (LABEL_INFORMAL@, "informal"@),
        menu_entries(actions)[3] == (LABEL_CONCISE@, "concise"@),
        forall|k: int|
            0 <= k < actions.len() ==> {
                let a = #[trigger] actions[k];
                let e = menu_entries(actions)[4 + k];
                &&& e.1 == "custom_"@ + a.id@
                &&& a.icon matches Some(i) ==> e.0 == i@ + " "@ + a.label@
                &&& a.icon is None ==> e.0 == DEFAULT_ICON@ + " "@ + a.label@
            },
{
    let es = menu_entries(actions);
    assert forall|k: int| 0 <= k < actions.len() implies {
        let a = #[trigger] actions[k];
        let e = menu_entries(actions)[4 + k];
        &&& e.1 == "custom_"@ + a.id@
        &&& a.icon matches Some(i) ==> e.0 == i@ + " "@ + a.label@
        &&& a.icon is None ==> e.0 == DEFAULT_ICON@ + " "@ + a.label@
    } by {
        assert(es[4 + k] == (custom_label(actions[k]), custom_id_of(actions[k])));
    }
}

} // verus!
