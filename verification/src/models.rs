//! Which of the models that OpenAI lists Fennec offers, and in what order.
use vstd::prelude::*;
use vstd::relations::*;
use crate::text::{has_prefix, lemma_seq_le_total, lemma_seq_lt_connected, lemma_seq_lt_transitive, seq_le, seq_lt, starts_with, str_lt};

verus! {

broadcast use vstd::string::group_string_axioms;

/// Model ids that start with this are chat models.
pub const GPT_PREFIX: &'static str = "gpt-";

/// Model ids that start with this are reasoning models.
pub const O_PREFIX: &'static str = "o";

/// Model ids that start with this are ChatGPT models.
pub const CHATGPT_PREFIX: &'static str = "chatgpt-";

/// Whether a model id names a model that can chat.
pub open spec fn is_chat_model(id: Seq<char>) -> bool {
    has_prefix(id, GPT_PREFIX@) || has_prefix(id, O_PREFIX@) || has_prefix(id, CHATGPT_PREFIX@)
}

/// The strings of a sequence, each taken by its characters.
pub open spec fn views(s: Seq<String>) -> Seq<Seq<char>> {
    s.map_values(|x: String| x@)
}

/// The lexicographic order, as a relation.
pub open spec fn lex_le() -> spec_fn(Seq<char>, Seq<char>) -> bool {
    |a: Seq<char>, b: Seq<char>| seq_le(a, b)
}

/// The chat-model predicate, as a function.
pub open spec fn chat_model_pred() -> spec_fn(Seq<char>) -> bool {
    |id: Seq<char>| is_chat_model(id)
}

/// Whether `id` names a chat model.
pub fn is_chat_model_id(id: &str) -> (r: bool)
    ensures
        r == is_chat_model(id@),
{
    starts_with(id, GPT_PREFIX) || starts_with(id, O_PREFIX) || starts_with(id, CHATGPT_PREFIX)
}

proof fn lemma_multiset_insert<A>(s: Seq<A>, j: int, e: A)
    requires
        0 <= j <= s.len(),
    ensures
        s.insert(j, e).to_multiset() =~= s.to_multiset().insert(e),
{
    broadcast use vstd::seq_lib::group_to_multiset_ensures;
    broadcast use vstd::multiset::group_multiset_axioms;

    let a = s.take(j);
    let b = s.skip(j);
    assert(s.insert(j, e) =~= a.push(e) + b);
    assert(s =~= a + b);
    vstd::seq_lib::lemma_multiset_commutative(a.push(e), b);
    vstd::seq_lib::lemma_multiset_commutative(a, b);
}

/// Inserts `x` into the sorted `r`, after the strings that are not greater.
fn insert_sorted(r: &mut Vec<String>, x: String)
    requires
        sorted_by(views(old(r)@), lex_le()),
    ensures
        sorted_by(views(final(r)@), lex_le()),
        views(final(r)@).to_multiset() == views(old(r)@).to_multiset().insert(x@),
{
    proof {
        lemma_seq_le_total();
    }
    let ghost le = lex_le();
    let ghost old_v = views(r@);
    let n = r.len();
    let mut j: usize = 0;
    while j < n && !str_lt(x.as_str(), r[j].as_str())
        invariant
            n == r@.len(),
            old_v == views(r@),
            j <= n,
            forall|k: int| 0 <= k < j ==> #[trigger] le(old_v[k], x@),
            le == lex_le(),
        decreases n - j,
    {
        proof {
            lemma_seq_lt_connected(x@, r@[j as int]@);
            assert(old_v[j as int] == r@[j as int]@);
        }
        j = j + 1;
    }
    proof {
        if j < n {
            assert(old_v[j as int] == r@[j as int]@);
            assert(seq_lt(x@, old_v[j as int]));
        }
    }
    let ghost xv = x@;
    r.insert(j, x);
    proof {
        let nv = views(r@);
        assert(nv =~= old_v.insert(j as int, xv));
        lemma_multiset_insert(old_v, j as int, xv);
        assert forall|a: int, b: int| 0 <= a < b < nv.len() implies #[trigger] le(
            nv[a],
            nv[b],
        ) by {
            if b < j {
                assert(nv[a] == old_v[a] && nv[b] == old_v[b]);
            } else if b == j {
                assert(nv[a] == old_v[a] && nv[b] == xv);
            } else if a < j {
                assert(nv[a] == old_v[a] && nv[b] == old_v[b - 1]);
                if a < b - 1 {
                    assert(le(old_v[a], old_v[b - 1]));
                }
            } else if a == j {
                assert(nv[a] == xv && nv[b] == old_v[b - 1]);
                assert(seq_lt(xv, old_v[j as int]));
                if j < b - 1 {
                    assert(le(old_v[j as int], old_v[b - 1]));
                    if seq_lt(old_v[j as int], old_v[b - 1]) {
                        lemma_seq_lt_transitive(xv, old_v[j as int], old_v[b - 1]);
                    }
                }
            } else {
                assert(nv[a] == old_v[a - 1] && nv[b] == old_v[b - 1]);
                assert(le(old_v[a - 1], old_v[b - 1]));
            }
        }
    }
}

/// The chat models among `ids`, in ascending order.
pub fn select_chat_models(ids: Vec<String>) -> (r: Vec<String>)
    ensures
        sorted_by(views(r@), lex_le()),
        views(r@).to_multiset() == views(ids@).filter(chat_model_pred()).to_multiset(),
{
    let ghost p = chat_model_pred();
    let mut r: Vec<String> = Vec::new();
    let mut i: usize = 0;
    proof {
        broadcast use vstd::seq_lib::group_to_multiset_ensures;

        assert(views(r@) =~= Seq::<Seq<char>>::empty());
        assert(views(ids@.take(0)) =~= Seq::<Seq<char>>::empty());
        reveal(Seq::filter);
        assert(Seq::<Seq<char>>::empty().filter(p) =~= Seq::<Seq<char>>::empty());
    }
    while i < ids.len()
        invariant
            i <= ids@.len(),
            p == chat_model_pred(),
            sorted_by(views(r@), lex_le()),
            views(r@).to_multiset() == views(ids@.take(i as int)).filter(p).to_multiset(),
        decreases ids@.len() - i,
    {
        proof {
            assert(views(ids@.take(i + 1)) =~= views(ids@.take(i as int)).push(ids@[i as int]@));
            views(ids@.take(i as int)).lemma_filter_push(ids@[i as int]@, p);
        }
        if is_chat_model_id(ids[i].as_str()) {
            let id = ids[i].clone();
            proof {
                broadcast use vstd::seq_lib::group_to_multiset_ensures;

            }
            insert_sorted(&mut r, id);
        }
        i = i + 1;
    }
    assert(ids@.take(ids@.len() as int) =~= ids@);
    r
}

} // verus!
