use vstd::prelude::*;

verus! {

/// The elements of `s` in the order of their first occurrence, each once.
pub open spec fn first_occurrences(s: Seq<u64>) -> Seq<u64>
    decreases s.len(),
{
    if s.len() == 0 {
        seq![]
    } else {
        let p = first_occurrences(s.drop_last());
        if s.drop_last().contains(s.last()) {
            p
        } else {
            p.push(s.last())
        }
    }
}

/// `first_occurrences` keeps exactly the elements of its argument.
pub proof fn lemma_first_occurrences_same_elements(s: Seq<u64>)
    ensures
        forall|x: u64| first_occurrences(s).contains(x) <==> s.contains(x),
    decreases s.len(),
{
    if s.len() > 0 {
        let p = s.drop_last();
        lemma_first_occurrences_same_elements(p);
        let fp = first_occurrences(p);
        let fs = first_occurrences(s);
        assert forall|x: u64| fs.contains(x) <==> s.contains(x) by {
            if p.contains(s.last()) {
                assert(fs == fp);
            } else {
                assert(fs == fp.push(s.last()));
                assert(fs[fp.len() as int] == s.last());
            }
            if s.contains(x) {
                let i = choose|i: int| 0 <= i < s.len() && s[i] == x;
                if i < p.len() {
                    assert(p[i] == x);
                    assert(p.contains(x));
                    assert(fp.contains(x));
                    let k = choose|k: int| 0 <= k < fp.len() && fp[k] == x;
                    assert(fs[k] == x);
                } else if p.contains(x) {
                    assert(fp.contains(x));
                    let k = choose|k: int| 0 <= k < fp.len() && fp[k] == x;
                    assert(fs[k] == x);
                }
            }
            if fs.contains(x) {
                let k = choose|k: int| 0 <= k < fs.len() && fs[k] == x;
                if k < fp.len() {
                    assert(fp[k] == x);
                    assert(fp.contains(x));
                    assert(p.contains(x));
                    let i = choose|i: int| 0 <= i < p.len() && p[i] == x;
                    assert(p[i] == s[i]);
                    assert(s[i] == x);
                } else {
                    assert(s[s.len() - 1] == x);
                }
            }
        }
    }
}

/// `first_occurrences` holds no element twice.
pub proof fn lemma_first_occurrences_no_duplicates(s: Seq<u64>)
    ensures
        first_occurrences(s).no_duplicates(),
    decreases s.len(),
{
    if s.len() > 0 {
        let p = s.drop_last();
        lemma_first_occurrences_no_duplicates(p);
        lemma_first_occurrences_same_elements(p);
    }
}

/// The entities to despawn for a batch of deletion requests: each requested entity once, in the
/// order of its first request (despawning an entity twice is an error).
pub fn entities_to_delete(deletions: &Vec<u64>) -> (r: Vec<u64>)
    ensures
        r@ == first_occurrences(deletions@),
        r@.no_duplicates(),
        forall|x: u64| r@.contains(x) <==> deletions@.contains(x),
{
    let mut deleted: Vec<u64> = Vec::new();
    let len = deletions.len();
    proof {
        assert(deletions@.take(0) =~= Seq::<u64>::empty());
    }
    for i in 0..len
        invariant
            len == deletions@.len(),
            deleted@ == first_occurrences(deletions@.take(i as int)),
    {
        let id = deletions[i];
        proof {
            let t = deletions@.take(i + 1);
            assert(t.drop_last() =~= deletions@.take(i as int));
            lemma_first_occurrences_same_elements(deletions@.take(i as int));
        }
        let mut seen = false;
        let dl = deleted.len();
        for j in 0..dl
            invariant
                dl == deleted@.len(),
                seen == (exists|k: int| 0 <= k < j && deleted@[k] == id),
        {
            if deleted[j] == id {
                seen = true;
            }
        }
        if !seen {
            deleted.push(id);
        }
    }
    proof {
        assert(deletions@.take(len as int) =~= deletions@);
        lemma_first_occurrences_no_duplicates(deletions@);
        lemma_first_occurrences_same_elements(deletions@);
    }
    deleted
}

} // verus!
