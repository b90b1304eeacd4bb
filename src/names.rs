use vstd::prelude::*;
use vstd::string::*;

verus! {

/// The character of a decimal digit.
pub open spec fn digit_char(d: nat) -> char {
    if d == 0 { '0' }
    else if d == 1 { '1' }
    else if d == 2 { '2' }
    else if d == 3 { '3' }
    else if d == 4 { '4' }
    else if d == 5 { '5' }
    else if d == 6 { '6' }
    else if d == 7 { '7' }
    else if d == 8 { '8' }
    else { '9' }
}

/// The decimal digits of `n`, most significant first, without leading zeros.
pub open spec fn decimal(n: nat) -> Seq<char>
    decreases n,
{
    if n < 10 {
        seq![digit_char(n)]
    } else {
        decimal(n / 10) + seq![digit_char(n % 10)]
    }
}

/// The label issued for the `n`-th use (counting from zero) of a base name.
pub open spec fn spec_label(base: Seq<char>, n: nat) -> Seq<char> {
    base + ":"@ + decimal(n)
}

fn digit_str(d: u64) -> (r: &'static str)
    requires
        d < 10,
    ensures
        r@ == seq![digit_char(d as nat)],
{
    proof {
        reveal_strlit("0");
        reveal_strlit("1");
        reveal_strlit("2");
        reveal_strlit("3");
        reveal_strlit("4");
        reveal_strlit("5");
        reveal_strlit("6");
        reveal_strlit("7");
        reveal_strlit("8");
        reveal_strlit("9");
    }
    if d == 0 { "0" }
    else if d == 1 { "1" }
    else if d == 2 { "2" }
    else if d == 3 { "3" }
    else if d == 4 { "4" }
    else if d == 5 { "5" }
    else if d == 6 { "6" }
    else if d == 7 { "7" }
    else if d == 8 { "8" }
    else { "9" }
}

fn push_decimal(s: &mut String, n: u64)
    ensures
        final(s)@ == old(s)@ + decimal(n as nat),
    decreases n,
{
    if n >= 10 {
        push_decimal(s, n / 10);
    }
    s.append(digit_str(n % 10));
    assert(final(s)@ =~= old(s)@ + decimal(n as nat));
}

/// Issues unique diagnostic labels: the `n`-th request for a base name `b`
/// (counting from zero) gets `b:n`.
pub struct NameManager {
    bases: Vec<String>,
    counts: Vec<u64>,
}

impl NameManager {
    /// Number of labels issued for `base` since creation or the last reset.
    pub closed spec fn issued(&self, base: Seq<char>) -> nat {
        if exists|i: int| 0 <= i < self.bases@.len() && self.bases@[i]@ == base {
            let i = choose|i: int| 0 <= i < self.bases@.len() && self.bases@[i]@ == base;
            self.counts@[i] as nat
        } else {
            0
        }
    }

    /// Internal consistency: one count per base name, each name once.
    pub closed spec fn wf(&self) -> bool {
        &&& self.bases@.len() == self.counts@.len()
        &&& forall|i: int, j: int|
            0 <= i < j < self.bases@.len() ==> self.bases@[i]@ != self.bases@[j]@
    }

    proof fn lemma_issued_at(&self, i: int)
        requires
            self.wf(),
            0 <= i < self.bases@.len(),
        ensures
            self.issued(self.bases@[i]@) == self.counts@[i] as nat,
    {
        let base = self.bases@[i]@;
        let j = choose|j: int| 0 <= j < self.bases@.len() && self.bases@[j]@ == base;
        assert(i == j) by {
            if i < j {
            } else if j < i {
            }
        }
    }

    /// A registry that has issued no label.
    pub fn new() -> (r: NameManager)
        ensures
            r.wf(),
            forall|b: Seq<char>| r.issued(b) == 0,
    {
        NameManager { bases: Vec::new(), counts: Vec::new() }
    }

    /// Issues the next label for `name` and counts it.
    pub fn new_name(&mut self, name: &str) -> (r: String)
        requires
            old(self).wf(),
            old(self).issued(name@) < u64::MAX,
        ensures
            final(self).wf(),
            r@ == spec_label(name@, old(self).issued(name@)),
            final(self).issued(name@) == old(self).issued(name@) + 1,
            forall|b: Seq<char>| b != name@ ==> final(self).issued(b) == old(self).issued(b),
    {
        let key = name.to_owned();
        let mut i: usize = 0;
        while i < self.bases.len()
            invariant
                self.wf(),
                key@ == name@,
                i <= self.bases@.len(),
                forall|j: int| 0 <= j < i ==> self.bases@[j]@ != name@,
                *self == *old(self),
            ensures
                i < self.bases@.len() ==> self.bases@[i as int]@ == name@,
                i <= self.bases@.len(),
                forall|j: int| 0 <= j < i ==> self.bases@[j]@ != name@,
                *self == *old(self),
            decreases self.bases@.len() - i,
        {
            if self.bases[i] == key {
                break;
            }
            i = i + 1;
        }
        let ghost before = *self;
        let n: u64;
        if i < self.bases.len() {
            proof {
                before.lemma_issued_at(i as int);
            }
            n = self.counts[i];
            self.counts.set(i, n + 1);
            proof {
                self.lemma_issued_at(i as int);
                assert forall|b: Seq<char>| b != name@ implies self.issued(b) == before.issued(b) by {
                    if exists|j: int| 0 <= j < self.bases@.len() && self.bases@[j]@ == b {
                        let j = choose|j: int| 0 <= j < self.bases@.len() && self.bases@[j]@ == b;
                        self.lemma_issued_at(j);
                        before.lemma_issued_at(j);
                    }
                }
            }
        } else {
            n = 0;
            self.bases.push(key);
            self.counts.push(1);
            proof {
                self.lemma_issued_at(i as int);
                assert forall|b: Seq<char>| b != name@ implies self.issued(b) == before.issued(b) by {
                    if exists|j: int| 0 <= j < self.bases@.len() && self.bases@[j]@ == b {
                        let j = choose|j: int| 0 <= j < self.bases@.len() && self.bases@[j]@ == b;
                        self.lemma_issued_at(j);
                        before.lemma_issued_at(j);
                    }
                    if exists|j: int| 0 <= j < before.bases@.len() && before.bases@[j]@ == b {
                        let j = choose|j: int| 0 <= j < before.bases@.len() && before.bases@[j]@ == b;
                        self.lemma_issued_at(j);
                        before.lemma_issued_at(j);
                    }
                }
            }
        }
        let mut label = name.to_owned();
        label.append(":");
        push_decimal(&mut label, n);
        proof {
            reveal_strlit(":");
        }
        assert(label@ =~= spec_label(name@, before.issued(name@)));
        label
    }

    /// Forgets every label issued so far: numbering starts again at zero.
    pub fn reset(&mut self)
        ensures
            final(self).wf(),
            forall|b: Seq<char>| final(self).issued(b) == 0,
    {
        self.bases.clear();
        self.counts.clear();
    }
}

} // verus!
