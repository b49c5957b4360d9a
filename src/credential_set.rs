//! The credentials of one user: membership and removal by value.
use vstd::prelude::*;
use crate::proto::{Credential, CredentialModel};

verus! {

/// What a list of credentials holds, credential by credential.
pub open spec fn models(s: Seq<Credential>) -> Seq<CredentialModel> {
    s.map_values(|c: Credential| c@)
}

/// `s` without the first credential equal to `c`; `s` itself where none is.
pub open spec fn without_first(s: Seq<CredentialModel>, c: CredentialModel) -> Seq<
    CredentialModel,
>
    decreases s.len(),
{
    if s.len() == 0 {
        s
    } else if s[0] == c {
        s.drop_first()
    } else {
        seq![s[0]] + without_first(s.drop_first(), c)
    }
}

/// Where `c` first stands at `i`, removing its first occurrence removes index `i`.
pub proof fn lemma_without_first_at(s: Seq<CredentialModel>, c: CredentialModel, i: int)
    requires
        0 <= i < s.len(),
        s[i] == c,
        forall|j: int| 0 <= j < i ==> s[j] != c,
    ensures
        without_first(s, c) == s.remove(i),
    decreases i,
{
    if i == 0 {
        assert(s.drop_first() =~= s.remove(0));
    } else {
        let t = s.drop_first();
        assert forall|j: int| 0 <= j < i - 1 implies t[j] != c by {
            assert(t[j] == s[j + 1]);
        }
        lemma_without_first_at(t, c, i - 1);
        assert(seq![s[0]] + t.remove(i - 1) =~= s.remove(i));
    }
}

/// Removing a credential that is not there changes nothing.
pub proof fn lemma_without_absent(s: Seq<CredentialModel>, c: CredentialModel)
    requires
        !s.contains(c),
    ensures
        without_first(s, c) == s,
    decreases s.len(),
{
    if s.len() > 0 {
        let t = s.drop_first();
        assert(s[0] != c);
        assert forall|j: int| 0 <= j < t.len() implies t[j] != c by {
            assert(t[j] == s[j + 1]);
        }
        lemma_without_absent(t, c);
        assert(seq![s[0]] + t =~= s);
    }
}

/// Appending a credential that was not there, then removing it, gives the list back.
pub proof fn lemma_without_appended(s: Seq<CredentialModel>, c: CredentialModel)
    requires
        !s.contains(c),
    ensures
        without_first(s.push(c), c) == s,
{
    let t = s.push(c);
    let i = s.len() as int;
    assert forall|j: int| 0 <= j < i implies t[j] != c by {
        assert(t[j] == s[j]);
    }
    lemma_without_first_at(t, c, i);
    assert(t.remove(i) =~= s);
}

/// Whether `v` holds a credential equal to `c`.
pub fn contains_credential(v: &Vec<Credential>, c: &Credential) -> (r: bool)
    ensures
        r == models(v@).contains(c@),
{
    let mut i: usize = 0;
    while i < v.len()
        invariant
            i <= v@.len(),
            forall|j: int| 0 <= j < i ==> models(v@)[j] != c@,
        decreases v.len() - i,
    {
        if v[i] == *c {
            assert(models(v@)[i as int] == c@);
            return true;
        }
        i = i + 1;
    }
    false
}

/// Removes the first credential of `v` equal to `c`, if there is one.
pub fn remove_first_credential(v: &mut Vec<Credential>, c: &Credential)
    ensures
        models(final(v)@) == without_first(models(old(v)@), c@),
{
    let mut i: usize = 0;
    while i < v.len()
        invariant
            i <= v@.len(),
            v@ == old(v)@,
            forall|j: int| 0 <= j < i ==> models(v@)[j] != c@,
        decreases v.len() - i,
    {
        if v[i] == *c {
            proof {
                lemma_without_first_at(models(v@), c@, i as int);
            }
            let ghost before = v@;
            v.remove(i);
            assert(models(v@) =~= models(before).remove(i as int));
            return;
        }
        i = i + 1;
    }
    proof {
        lemma_without_absent(models(v@), c@);
    }
}

} // verus!
