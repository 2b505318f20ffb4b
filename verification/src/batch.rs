//! Reading a list of items in order, where the first item that fails to read
//! stops the whole list with its error.
use vstd::prelude::*;

verus! {

broadcast use vstd::seq_lib::group_seq_properties;

/// Reads each item of `raw` with `f`, which also gets the item's index; the
/// first failure is the result.
pub open spec fn decode_each<A, B>(raw: Seq<A>, f: spec_fn(int, A) -> Result<B, Seq<char>>) -> Result<
    Seq<B>,
    Seq<char>,
>
    decreases raw.len(),
{
    if raw.len() == 0 {
        Ok(seq![])
    } else {
        match decode_each(raw.drop_last(), f) {
            Err(e) => Err(e),
            Ok(bs) => match f(raw.len() - 1, raw.last()) {
                Err(e) => Err(e),
                Ok(b) => Ok(bs.push(b)),
            },
        }
    }
}

/// Reading one more item extends what the items before it gave.
pub proof fn lemma_decode_each_step<A, B>(
    raw: Seq<A>,
    f: spec_fn(int, A) -> Result<B, Seq<char>>,
    n: int,
)
    requires
        0 <= n < raw.len(),
    ensures
        decode_each(raw.take(n + 1), f) == match decode_each(raw.take(n), f) {
            Err(e) => Err(e),
            Ok(bs) => match f(n, raw[n]) {
                Err(e) => Err(e),
                Ok(b) => Ok(bs.push(b)),
            },
        },
{
    assert(raw.take(n + 1).drop_last() =~= raw.take(n));
    assert(raw.take(n + 1).last() == raw[n]);
}

/// Once the first `n` items fail to read, the whole list does, with the same error.
pub proof fn lemma_decode_each_prefix_err<A, B>(
    raw: Seq<A>,
    f: spec_fn(int, A) -> Result<B, Seq<char>>,
    n: int,
)
    requires
        0 <= n <= raw.len(),
        decode_each(raw.take(n), f) is Err,
    ensures
        decode_each(raw, f) == decode_each(raw.take(n), f),
    decreases raw.len() - n,
{
    if n < raw.len() {
        lemma_decode_each_step(raw, f, n);
        lemma_decode_each_prefix_err(raw, f, n + 1);
    } else {
        assert(raw.take(n) =~= raw);
    }
}

/// A list that reads gives one result per item, each what `f` gives for that item.
pub proof fn lemma_decode_each_ok<A, B>(raw: Seq<A>, f: spec_fn(int, A) -> Result<B, Seq<char>>)
    ensures
        decode_each(raw, f) matches Ok(bs) ==> {
            &&& bs.len() == raw.len()
            &&& forall|i: int| 0 <= i < raw.len() ==> f(i, raw[i]) == Ok::<B, Seq<char>>(bs[i])
        },
    decreases raw.len(),
{
    if raw.len() > 0 {
        lemma_decode_each_ok(raw.drop_last(), f);
        if decode_each(raw, f) is Ok {
            let bs = decode_each(raw, f)->Ok_0;
            let prev = decode_each(raw.drop_last(), f)->Ok_0;
            assert forall|i: int| 0 <= i < raw.len() implies f(i, raw[i]) == Ok::<B, Seq<char>>(
                bs[i],
            ) by {
                if i < raw.len() - 1 {
                    assert(raw.drop_last()[i] == raw[i]);
                    assert(bs[i] == prev[i]);
                }
            }
        }
    }
}

/// A list fails to read exactly when one of its items does.
pub proof fn lemma_decode_each_err<A, B>(raw: Seq<A>, f: spec_fn(int, A) -> Result<B, Seq<char>>)
    ensures
        decode_each(raw, f) is Err <==> exists|i: int| 0 <= i < raw.len() && (#[trigger] f(i, raw[i])) is Err,
    decreases raw.len(),
{
    if raw.len() > 0 {
        let prev = raw.drop_last();
        lemma_decode_each_err(prev, f);
        assert(forall|i: int| 0 <= i < prev.len() ==> prev[i] == raw[i]);
        if exists|i: int| 0 <= i < raw.len() && (#[trigger] f(i, raw[i])) is Err {
            let i = choose|i: int| 0 <= i < raw.len() && (#[trigger] f(i, raw[i])) is Err;
            if i < prev.len() {
                assert(f(i, prev[i]) is Err);
            }
        }
        if exists|i: int| 0 <= i < prev.len() && (#[trigger] f(i, prev[i])) is Err {
            let i = choose|i: int| 0 <= i < prev.len() && (#[trigger] f(i, prev[i])) is Err;
            assert(f(i, raw[i]) is Err);
        }
        if decode_each(prev, f) is Ok && f(raw.len() - 1, raw.last()) is Err {
            assert(f(raw.len() - 1, raw[raw.len() - 1]) is Err);
        }
    }
}

} // verus!
