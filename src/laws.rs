//! Properties of the server that relate several commands, proved over the
//! model that every command is specified by.

use crate::index::{
    consistent, dispatch, empty_server, existing_type, lemma_built_request_ok,
    lemma_execute_consistent, outcome, type_mismatch_message, build_request, IndexImpactOnCompletion,
    KeyType, OutcomeView, RedisCommandType, RequestView, ServerModel,
};
use crate::list_executor::{list_execute, list_or_empty, ListModel};
use crate::resp::{decimal, integer_reply, lemma_parse_decimal, ok_reply, simple_reply};
use crate::verb::{verb_lock, verb_of_text, verb_text, Verb};
use vstd::prelude::*;
use vstd::utf8::encode_utf8;

verus! {

/// The state after running commands one after another.
pub open spec fn run(m: ServerModel, commands: Seq<Seq<Seq<char>>>) -> ServerModel
    decreases commands.len(),
{
    if commands.len() == 0 {
        m
    } else {
        dispatch(run(m, commands.drop_last()), commands.last()).0
    }
}

/// Every command that names a verb keeps the server consistent.
pub proof fn law_dispatch_keeps_consistent(m: ServerModel, argv: Seq<Seq<char>>)
    requires
        consistent(m),
        argv.len() >= 1,
    ensures
        consistent(dispatch(m, argv).0),
{
    lemma_built_request_ok(argv);
    if let Ok(req) = build_request(argv) {
        lemma_execute_consistent(m, req);
    }
}

/// From an empty server, any sequence of commands leaves every live key in
/// exactly one typed store, recorded in the index with that store's type.
pub proof fn law_commands_keep_consistent(commands: Seq<Seq<Seq<char>>>)
    requires
        forall|i: int| 0 <= i < commands.len() ==> (#[trigger] commands[i]).len() >= 1,
    ensures
        consistent(run(empty_server(), commands)),
    decreases commands.len(),
{
    if commands.len() > 0 {
        law_commands_keep_consistent(commands.drop_last());
        law_dispatch_keeps_consistent(run(empty_server(), commands.drop_last()), commands.last());
    }
}

/// `SET k v` answers `+OK`, and a following `GET k` answers `+v`.
pub proof fn law_set_then_get(
    m: ServerModel,
    set_word: Seq<char>,
    get_word: Seq<char>,
    k: Seq<char>,
    v: Seq<char>,
)
    requires
        consistent(m),
        verb_of_text(set_word) == Some(Verb::SetValue),
        verb_of_text(get_word) == Some(Verb::Get),
        !m.lists.contains_key(k),
    ensures
        ({
            let (m1, r1) = dispatch(m, seq![set_word, k, v]);
            let (m2, r2) = dispatch(m1, seq![get_word, k]);
            &&& r1 == Ok::<Seq<u8>, Seq<char>>(ok_reply())
            &&& r2 == Ok::<Seq<u8>, Seq<char>>(simple_reply(encode_utf8(v)))
            &&& m2 == m1
        }),
{
    let m1 = dispatch(m, seq![set_word, k, v]).0;
    assert(m1.strings.contains_key(k) && m1.strings[k] == encode_utf8(v));
    assert(existing_type(m1.index, k) == KeyType::String);
}

/// The commands `RPUSH k x` for each `x` of `xs`, in order.
pub open spec fn rpushes(word: Seq<char>, k: Seq<char>, xs: Seq<Seq<char>>) -> Seq<Seq<Seq<char>>> {
    xs.map_values(|x: Seq<char>| seq![word, k, x])
}

proof fn lemma_rpushes(m: ServerModel, word: Seq<char>, k: Seq<char>, xs: Seq<Seq<char>>)
    requires
        consistent(m),
        verb_of_text(word) == Some(Verb::RPush),
        !m.index.contains_key(k),
    ensures
        consistent(run(m, rpushes(word, k, xs))),
        xs.len() > 0 ==> run(m, rpushes(word, k, xs)).lists.contains_key(k)
            && run(m, rpushes(word, k, xs)).lists[k] == xs.map_values(|x: Seq<char>| encode_utf8(x))
            && run(m, rpushes(word, k, xs)).index[k] == KeyType::List,
        xs.len() == 0 ==> run(m, rpushes(word, k, xs)) == m,
    decreases xs.len(),
{
    if xs.len() > 0 {
        let pre = xs.drop_last();
        assert(rpushes(word, k, xs).drop_last() =~= rpushes(word, k, pre));
        lemma_rpushes(m, word, k, pre);
        let m0 = run(m, rpushes(word, k, pre));
        let argv = seq![word, k, xs.last()];
        assert(rpushes(word, k, xs).last() == argv);
        law_dispatch_keeps_consistent(m0, argv);
        let m1 = dispatch(m0, argv).0;
        assert(m1.lists[k] =~= xs.map_values(|x: Seq<char>| encode_utf8(x)));
    }
}

/// After `RPUSH k x` for each `x` of `xs` on an absent key, `LLEN k` answers
/// the number of elements pushed.
pub proof fn law_rpush_then_llen(
    m: ServerModel,
    push_word: Seq<char>,
    len_word: Seq<char>,
    k: Seq<char>,
    xs: Seq<Seq<char>>,
)
    requires
        consistent(m),
        verb_of_text(push_word) == Some(Verb::RPush),
        verb_of_text(len_word) == Some(Verb::LLen),
        !m.index.contains_key(k),
    ensures
        dispatch(run(m, rpushes(push_word, k, xs)), seq![len_word, k]).1 == Ok::<Seq<u8>, Seq<char>>(
            integer_reply(xs.len() as int),
        ),
{
    lemma_rpushes(m, push_word, k, xs);
}

/// After `RPUSH k x` for each `x` of `xs` on an absent key, `LINDEX k i`
/// answers the `i`-th element pushed, for every `i` below their number.
pub proof fn law_rpush_then_lindex(
    m: ServerModel,
    push_word: Seq<char>,
    index_word: Seq<char>,
    k: Seq<char>,
    xs: Seq<Seq<char>>,
    i: int,
    i_text: Seq<char>,
)
    requires
        consistent(m),
        verb_of_text(push_word) == Some(Verb::RPush),
        verb_of_text(index_word) == Some(Verb::LIndex),
        !m.index.contains_key(k),
        0 <= i < xs.len() <= i64::MAX,
        encode_utf8(i_text) == decimal(i),
    ensures
        dispatch(run(m, rpushes(push_word, k, xs)), seq![index_word, k, i_text]).1 == Ok::<
            Seq<u8>,
            Seq<char>,
        >(simple_reply(encode_utf8(xs[i]))),
{
    lemma_rpushes(m, push_word, k, xs);
    lemma_parse_decimal(i);
}

/// `RPUSH k x` then `LPOP k` on an absent key answers `+x`, and the emptied
/// list leaves the index: `EXISTS k` answers `:0`.
pub proof fn law_single_push_pop(
    m: ServerModel,
    push_word: Seq<char>,
    pop_word: Seq<char>,
    exists_word: Seq<char>,
    k: Seq<char>,
    x: Seq<char>,
)
    requires
        consistent(m),
        verb_of_text(push_word) == Some(Verb::RPush),
        verb_of_text(pop_word) == Some(Verb::LPop),
        verb_of_text(exists_word) == Some(Verb::Exists),
        !m.index.contains_key(k),
    ensures
        ({
            let (m1, r1) = dispatch(m, seq![push_word, k, x]);
            let (m2, r2) = dispatch(m1, seq![pop_word, k]);
            let (m3, r3) = dispatch(m2, seq![exists_word, k]);
            &&& r1 == Ok::<Seq<u8>, Seq<char>>(integer_reply(1))
            &&& r2 == Ok::<Seq<u8>, Seq<char>>(simple_reply(encode_utf8(x)))
            &&& !m2.index.contains_key(k)
            &&& r3 == Ok::<Seq<u8>, Seq<char>>(integer_reply(0))
        }),
{
    let m1 = dispatch(m, seq![push_word, k, x]).0;
    assert(m1.lists[k] =~= seq![encode_utf8(x)]);
    assert(m1.lists[k].drop_first().len() == 0);
}

/// After `RENAME a b` on a live key `a` and a distinct `b`, `a` is gone and `b`
/// holds, with the same type, exactly what `a` held.
pub proof fn law_rename_moves(m: ServerModel, rename_word: Seq<char>, a: Seq<char>, b: Seq<char>)
    requires
        consistent(m),
        verb_of_text(rename_word) == Some(Verb::Rename),
        m.index.contains_key(a),
        a != b,
    ensures
        ({
            let (m1, r) = dispatch(m, seq![rename_word, a, b]);
            &&& r == Ok::<Seq<u8>, Seq<char>>(ok_reply())
            &&& !m1.index.contains_key(a)
            &&& m1.index.contains_key(b)
            &&& m1.index[b] == m.index[a]
            &&& m1.strings.contains_key(b) == m.strings.contains_key(a)
            &&& m.strings.contains_key(a) ==> m1.strings[b] == m.strings[a]
            &&& m1.lists.contains_key(b) == m.lists.contains_key(a)
            &&& m.lists.contains_key(a) ==> m1.lists[b] == m.lists[a]
        }),
{
    vstd::utf8::encode_utf8_valid_utf8(b);
    vstd::utf8::encode_utf8_decode_utf8(b);
}

/// `EXISTS` after `RENAME a b`: `:0` for `a` and `:1` for `b`.
pub proof fn law_rename_then_exists(
    m: ServerModel,
    rename_word: Seq<char>,
    exists_word: Seq<char>,
    a: Seq<char>,
    b: Seq<char>,
)
    requires
        consistent(m),
        verb_of_text(rename_word) == Some(Verb::Rename),
        verb_of_text(exists_word) == Some(Verb::Exists),
        m.index.contains_key(a),
        a != b,
    ensures
        ({
            let m1 = dispatch(m, seq![rename_word, a, b]).0;
            &&& dispatch(m1, seq![exists_word, a]).1 == Ok::<Seq<u8>, Seq<char>>(integer_reply(0))
            &&& dispatch(m1, seq![exists_word, b]).1 == Ok::<Seq<u8>, Seq<char>>(integer_reply(1))
        }),
{
    law_rename_moves(m, rename_word, a, b);
}

/// `SET a v1; SET b v2; RENAME a b; GET b` answers `+v1`.
pub proof fn law_set_set_rename_get(
    m: ServerModel,
    set_word: Seq<char>,
    rename_word: Seq<char>,
    get_word: Seq<char>,
    a: Seq<char>,
    b: Seq<char>,
    v1: Seq<char>,
    v2: Seq<char>,
)
    requires
        consistent(m),
        verb_of_text(set_word) == Some(Verb::SetValue),
        verb_of_text(rename_word) == Some(Verb::Rename),
        verb_of_text(get_word) == Some(Verb::Get),
        !m.lists.contains_key(a),
        !m.lists.contains_key(b),
        a != b,
    ensures
        ({
            let m1 = dispatch(m, seq![set_word, a, v1]).0;
            let m2 = dispatch(m1, seq![set_word, b, v2]).0;
            let m3 = dispatch(m2, seq![rename_word, a, b]).0;
            dispatch(m3, seq![get_word, b]).1 == Ok::<Seq<u8>, Seq<char>>(simple_reply(encode_utf8(v1)))
        }),
{
    let m1 = dispatch(m, seq![set_word, a, v1]).0;
    law_dispatch_keeps_consistent(m, seq![set_word, a, v1]);
    let m2 = dispatch(m1, seq![set_word, b, v2]).0;
    law_dispatch_keeps_consistent(m1, seq![set_word, b, v2]);
    assert(m2.strings[a] == encode_utf8(v1));
    assert(m2.index.contains_key(a));
    law_rename_moves(m2, rename_word, a, b);
    let m3 = dispatch(m2, seq![rename_word, a, b]).0;
    law_dispatch_keeps_consistent(m2, seq![rename_word, a, b]);
    assert(m3.strings[b] == encode_utf8(v1));
    assert(existing_type(m3.index, b) == KeyType::String);
}

/// `LPUSH` on a key that holds a string fails with the type error and leaves
/// the server as `SET` left it.
pub proof fn law_set_then_lpush_fails(
    m: ServerModel,
    set_word: Seq<char>,
    push_word: Seq<char>,
    a: Seq<char>,
    v: Seq<char>,
    x: Seq<char>,
)
    requires
        consistent(m),
        verb_of_text(set_word) == Some(Verb::SetValue),
        verb_of_text(push_word) == Some(Verb::LPush),
        !m.lists.contains_key(a),
    ensures
        ({
            let m1 = dispatch(m, seq![set_word, a, v]).0;
            let (m2, r) = dispatch(m1, seq![push_word, a, x]);
            &&& r == Err::<Seq<u8>, Seq<char>>(type_mismatch_message())
            &&& m2 == m1
        }),
{
    let m1 = dispatch(m, seq![set_word, a, v]).0;
    assert(existing_type(m1.index, a) == KeyType::String);
}

/// A list-store request with the given verb, key and parameters.
pub open spec fn list_request(v: Verb, k: Seq<char>, params: Seq<Seq<u8>>) -> RequestView {
    RequestView {
        command_type: RedisCommandType::ListCommand,
        target: k,
        action: verb_text(v),
        verb: Some(v),
        params,
        key_type: KeyType::List,
        lock_type: verb_lock(v),
    }
}

/// The list store after `RPUSH k x` for each `x` of `xs`, in order.
pub open spec fn run_rpushes(store: ListModel, k: Seq<char>, xs: Seq<Seq<u8>>) -> ListModel
    decreases xs.len(),
{
    if xs.len() == 0 {
        store
    } else {
        list_execute(run_rpushes(store, k, xs.drop_last()), list_request(Verb::RPush, k, seq![xs.last()])).0
    }
}

proof fn lemma_run_rpushes(store: ListModel, k: Seq<char>, xs: Seq<Seq<u8>>)
    requires
        !store.contains_key(k),
    ensures
        xs.len() > 0 ==> run_rpushes(store, k, xs).contains_key(k) && run_rpushes(store, k, xs)[k] == xs,
        xs.len() == 0 ==> !run_rpushes(store, k, xs).contains_key(k),
    decreases xs.len(),
{
    if xs.len() > 0 {
        lemma_run_rpushes(store, k, xs.drop_last());
        let before = run_rpushes(store, k, xs.drop_last());
        assert(list_or_empty(before, k).push(xs.last()) =~= xs);
    }
}

/// On the list store: after `RPUSH k x` for each `x` of `xs` on an absent
/// key, the list holds `xs` and `LLEN k` answers their number, changing nothing.
pub proof fn law_store_rpush_then_llen(store: ListModel, k: Seq<char>, xs: Seq<Seq<u8>>)
    requires
        !store.contains_key(k),
    ensures
        ({
            let pushed = run_rpushes(store, k, xs);
            &&& xs.len() > 0 ==> pushed[k] == xs
            &&& list_execute(pushed, list_request(Verb::LLen, k, Seq::empty())) == (
                pushed,
                Ok::<OutcomeView, Seq<char>>(
                    outcome(k, KeyType::List, IndexImpactOnCompletion::NoImpact, integer_reply(xs.len() as int)),
                ),
            )
        }),
{
    lemma_run_rpushes(store, k, xs);
}

/// On the list store: after `RPUSH k x` for each `x` of `xs` on an absent
/// key, `LINDEX k i` answers the `i`-th element pushed, changing nothing.
pub proof fn law_store_rpush_then_lindex(store: ListModel, k: Seq<char>, xs: Seq<Seq<u8>>, i: int)
    requires
        !store.contains_key(k),
        0 <= i < xs.len() <= i64::MAX,
    ensures
        ({
            let pushed = run_rpushes(store, k, xs);
            list_execute(pushed, list_request(Verb::LIndex, k, seq![decimal(i)])) == (
                pushed,
                Ok::<OutcomeView, Seq<char>>(
                    outcome(k, KeyType::List, IndexImpactOnCompletion::NoImpact, simple_reply(xs[i])),
                ),
            )
        }),
{
    lemma_run_rpushes(store, k, xs);
    lemma_parse_decimal(i);
}

} // verus!
