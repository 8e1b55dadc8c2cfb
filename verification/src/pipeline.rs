//! The runtime shape of a synthesized conversion: one validator outcome per
//! field, in declaration order, folded with a short-circuit on the first
//! failure. The emitted conversion routine has exactly this shape; the laws
//! below pin down which error it surfaces and what it builds on success.

use vstd::prelude::*;

verus! {

/// What a conversion yields for the given outcomes: the first failure's
/// error, or every success value in order.
pub open spec fn convert_spec<T>(rs: Seq<Result<T, String>>) -> Result<Seq<T>, Seq<char>>
    decreases rs.len(),
{
    if rs.len() == 0 {
        Ok(Seq::empty())
    } else {
        match rs[0] {
            Err(e) => Err(e@),
            Ok(v) => match convert_spec(rs.drop_first()) {
                Err(e) => Err(e),
                Ok(t) => Ok(seq![v] + t),
            },
        }
    }
}

/// Position of the first failed outcome; the length when all succeeded.
pub open spec fn first_err_index<T>(rs: Seq<Result<T, String>>) -> int
    decreases rs.len(),
{
    if rs.len() == 0 {
        0
    } else if rs[0] is Err {
        0
    } else {
        1 + first_err_index(rs.drop_first())
    }
}

/// Folds the given outcomes as the emitted conversion does: values in
/// order on success, the first failure's error otherwise.
pub fn convert_results<T>(rs: Vec<Result<T, String>>) -> (r: Result<Vec<T>, String>)
    ensures
        ({
            let s = convert_spec(rs@);
            match r {
                Ok(vs) => s matches Ok(sv) && vs@ == sv,
                Err(e) => s matches Err(se) && e@ == se,
            }
        }),
    decreases rs@.len(),
{
    let mut rest = rs;
    if rest.len() == 0 {
        let out: Vec<T> = Vec::new();
        proof {
            assert(out@ =~= Seq::<T>::empty());
        }
        return Ok(out);
    }
    let head = rest.remove(0);
    proof {
        assert(rest@ =~= rs@.drop_first());
    }
    match head {
        Err(e) => Err(e),
        Ok(v) => match convert_results(rest) {
            Err(e) => Err(e),
            Ok(mut vs) => {
                let ghost tail = vs@;
                vs.insert(0, v);
                proof {
                    assert(vs@ =~= seq![v] + tail);
                }
                Ok(vs)
            },
        },
    }
}

/// Where some outcome failed, the conversion reports exactly the error of
/// the earliest failure, and every outcome before it succeeded.
pub proof fn lemma_convert_first_err<T>(rs: Seq<Result<T, String>>)
    requires
        exists|i: int| 0 <= i < rs.len() && (#[trigger] rs[i]) is Err,
    ensures
        0 <= first_err_index(rs) < rs.len(),
        rs[first_err_index(rs)] is Err,
        forall|m: int| 0 <= m < first_err_index(rs) ==> (#[trigger] rs[m]) is Ok,
        convert_spec(rs) == Err::<Seq<T>, Seq<char>>(rs[first_err_index(rs)]->Err_0@),
    decreases rs.len(),
{
    if rs[0] is Err {
    } else {
        let i = choose|i: int| 0 <= i < rs.len() && (#[trigger] rs[i]) is Err;
        assert(rs.drop_first()[i - 1] is Err);
        lemma_convert_first_err::<T>(rs.drop_first());
        let k = first_err_index(rs.drop_first());
        assert(rs[k + 1] == rs.drop_first()[k]);
        assert forall|m: int| 0 <= m < first_err_index(rs) implies (#[trigger] rs[m]) is Ok by {
            if m > 0 {
                assert(rs.drop_first()[m - 1] is Ok);
            }
        }
    }
}

/// Determinism of the first error: whenever two outcomes fail, the
/// conversion surfaces the error of a failure that stands no later than
/// the earlier of the two, with only successes before it.
pub proof fn lemma_first_error_deterministic<T>(rs: Seq<Result<T, String>>, i: int, j: int)
    requires
        0 <= i < j < rs.len(),
        rs[i] is Err,
        rs[j] is Err,
    ensures
        first_err_index(rs) <= i,
        rs[first_err_index(rs)] is Err,
        forall|m: int| 0 <= m < first_err_index(rs) ==> (#[trigger] rs[m]) is Ok,
        convert_spec(rs) == Err::<Seq<T>, Seq<char>>(rs[first_err_index(rs)]->Err_0@),
{
    lemma_convert_first_err::<T>(rs);
}

/// Short-circuit: the conversion never consults an outcome that stands
/// after the first failure. Two outcome lists that agree up to and
/// including the earliest failure convert to the same result, however the
/// later outcomes differ.
pub proof fn lemma_short_circuit<T>(rs1: Seq<Result<T, String>>, rs2: Seq<Result<T, String>>, k: int)
    requires
        0 <= k < rs1.len(),
        k < rs2.len(),
        rs1[k] is Err,
        forall|m: int| 0 <= m <= k ==> rs1[m] == rs2[m],
        forall|m: int| 0 <= m < k ==> (#[trigger] rs1[m]) is Ok,
    ensures
        convert_spec(rs1) == convert_spec(rs2),
        convert_spec(rs1) == Err::<Seq<T>, Seq<char>>(rs1[k]->Err_0@),
    decreases k,
{
    if k == 0 {
    } else {
        assert forall|m: int| 0 <= m <= k - 1 implies rs1.drop_first()[m]
            == rs2.drop_first()[m] by {
            assert(rs1[m + 1] == rs2[m + 1]);
        }
        assert forall|m: int| 0 <= m < k - 1 implies (#[trigger] rs1.drop_first()[m]) is Ok by {
            assert(rs1[m + 1] is Ok);
        }
        assert(rs1.drop_first()[k - 1] is Err);
        lemma_short_circuit::<T>(rs1.drop_first(), rs2.drop_first(), k - 1);
    }
}

/// Success composition: where every outcome succeeded, the conversion
/// succeeds and yields each validator's output, in declaration order.
pub proof fn lemma_success_composition<T>(rs: Seq<Result<T, String>>)
    requires
        forall|k: int| 0 <= k < rs.len() ==> (#[trigger] rs[k]) is Ok,
    ensures
        convert_spec(rs) is Ok,
        convert_spec(rs)->Ok_0.len() == rs.len(),
        forall|k: int|
            0 <= k < rs.len() ==> convert_spec(rs)->Ok_0[k] == (#[trigger] rs[k])->Ok_0,
    decreases rs.len(),
{
    if rs.len() > 0 {
        assert(forall|k: int|
            0 <= k < rs.drop_first().len() ==> (#[trigger] rs.drop_first()[k]) is Ok);
        lemma_success_composition::<T>(rs.drop_first());
        assert forall|k: int| 0 <= k < rs.len() implies convert_spec(rs)->Ok_0[k] == (
        #[trigger] rs[k])->Ok_0 by {
            if k > 0 {
                assert(convert_spec(rs)->Ok_0[k] == convert_spec(rs.drop_first())->Ok_0[k - 1]);
                assert(rs[k] == rs.drop_first()[k - 1]);
            }
        }
    }
}

} // verus!
