//! One-shot delivery handshake.
//!
//! Each freshly created window is armed: its identity is bound to the one
//! transport payload it is to receive. When the window's front end signals
//! readiness under that identity, the payload is handed out exactly once and
//! the binding is removed. A signal carrying any other identity leaves the
//! binding untouched, so concurrent windows never cross-deliver, and a
//! second signal for a delivered window is ignored.

use vstd::prelude::*;
use crate::image_io::DataURL;

verus! {

/// A window armed for delivery: its identity and the payload it is owed.
pub struct ArmedDelivery {
    pub label: String,
    pub payload: DataURL,
}

/// The payload armed for `label`: the first (and, with unique labels, only)
/// entry carrying it.
pub open spec fn spec_find(s: Seq<ArmedDelivery>, label: Seq<char>) -> Option<DataURL>
    decreases s.len(),
{
    if s.len() == 0 {
        None
    } else if s[0].label@ == label {
        Some(s[0].payload)
    } else {
        spec_find(s.drop_first(), label)
    }
}

/// The registry after the delivery for `label`: the first entry carrying it
/// is removed, everything else stays.
pub open spec fn spec_deliver(s: Seq<ArmedDelivery>, label: Seq<char>) -> Seq<ArmedDelivery>
    decreases s.len(),
{
    if s.len() == 0 {
        s
    } else if s[0].label@ == label {
        s.drop_first()
    } else {
        seq![s[0]] + spec_deliver(s.drop_first(), label)
    }
}

/// No two armed entries share an identity.
pub open spec fn unique_labels(s: Seq<ArmedDelivery>) -> bool {
    forall|i: int, j: int| 0 <= i < j < s.len() ==> s[i].label@ != s[j].label@
}

/// An identity none of the entries carries has nothing armed for it, and a
/// delivery for it changes nothing.
pub proof fn lemma_find_absent(s: Seq<ArmedDelivery>, label: Seq<char>)
    requires
        forall|j: int| 0 <= j < s.len() ==> s[j].label@ != label,
    ensures
        spec_find(s, label) is None,
        spec_deliver(s, label) == s,
    decreases s.len(),
{
    if s.len() > 0 {
        lemma_find_absent(s.drop_first(), label);
        assert(seq![s[0]] + s.drop_first() =~= s);
    }
}

proof fn lemma_deliver_at(s: Seq<ArmedDelivery>, label: Seq<char>, i: int)
    requires
        0 <= i < s.len(),
        forall|j: int| 0 <= j < i ==> s[j].label@ != label,
        s[i].label@ == label,
    ensures
        spec_find(s, label) == Some(s[i].payload),
        spec_deliver(s, label) == s.remove(i),
    decreases i,
{
    if i == 0 {
        assert(s.drop_first() =~= s.remove(0));
    } else {
        lemma_deliver_at(s.drop_first(), label, i - 1);
        assert(s.drop_first()[i - 1] == s[i]);
        assert(seq![s[0]] + s.drop_first().remove(i - 1) =~= s.remove(i));
    }
}

/// The registry of armed, not yet delivered windows.
pub struct HandshakeRegistry {
    pub entries: Vec<ArmedDelivery>,
}

impl HandshakeRegistry {
    /// No two armed windows share an identity.
    pub open spec fn wf(self) -> bool {
        unique_labels(self.entries@)
    }

    pub fn new() -> (r: HandshakeRegistry)
        ensures
            r.entries@ == Seq::<ArmedDelivery>::empty(),
            r.wf(),
    {
        HandshakeRegistry { entries: Vec::new() }
    }

    /// Arm a freshly created window: bind its identity to the payload it is
    /// owed. The identity must not be armed already; the window manager
    /// guarantees that, since identities are never reused.
    pub fn arm(&mut self, label: String, payload: DataURL)
        requires
            spec_find(old(self).entries@, label@) is None,
        ensures
            final(self).entries@ == old(self).entries@.push(
                (ArmedDelivery { label: label, payload: payload }),
            ),
            old(self).wf() ==> final(self).wf(),
    {
        proof {
            lemma_find_some_when_present(self.entries@, label@);
        }
        self.entries.push(ArmedDelivery { label, payload });
        proof {
            if old(self).wf() {
                let s = final(self).entries@;
                assert forall|i: int, j: int|
                    0 <= i < j < s.len() implies s[i].label@ != s[j].label@ by {
                    if j == s.len() - 1 {
                        assert(s[j].label@ == label@);
                        assert(old(self).entries@[i].label@ != label@);
                    }
                }
            }
        }
    }

    /// A window's front end signalled readiness under `label`: hand out the
    /// payload armed for that identity, exactly once. A signal for an
    /// identity that is not armed (never created, already delivered, or
    /// closed) delivers nothing and changes nothing.
    pub fn on_ready(&mut self, label: &String) -> (r: Option<DataURL>)
        ensures
            r == spec_find(old(self).entries@, label@),
            final(self).entries@ == spec_deliver(old(self).entries@, label@),
    {
        let mut i: usize = 0;
        let n = self.entries.len();
        while i < n
            invariant
                i <= n,
                n == self.entries.len(),
                *self == *old(self),
                forall|j: int| 0 <= j < i ==> self.entries@[j].label@ != label@,
            decreases n - i,
        {
            if self.entries[i].label == *label {
                proof {
                    lemma_deliver_at(self.entries@, label@, i as int);
                }
                let entry = self.entries.remove(i);
                return Some(entry.payload);
            }
            i += 1;
        }
        proof {
            lemma_find_absent(self.entries@, label@);
        }
        None
    }

    /// The window was closed before (or after) delivery: drop whatever is
    /// still armed for it, so an armed listener never outlives its window.
    pub fn on_window_closed(&mut self, label: &String)
        ensures
            final(self).entries@ == spec_deliver(old(self).entries@, label@),
    {
        let _ = self.on_ready(label);
    }
}

proof fn lemma_find_some_when_present(s: Seq<ArmedDelivery>, label: Seq<char>)
    requires
        spec_find(s, label) is None,
    ensures
        forall|j: int| 0 <= j < s.len() ==> s[j].label@ != label,
    decreases s.len(),
{
    if s.len() > 0 {
        lemma_find_some_when_present(s.drop_first(), label);
        assert forall|j: int| 0 <= j < s.len() implies s[j].label@ != label by {
            if j > 0 {
                assert(s.drop_first()[j - 1] == s[j]);
            }
        }
    }
}

/// Law: handshake isolation. A delivery for one identity leaves what is
/// armed for every other identity exactly as it was: with windows A and B
/// armed concurrently, a ready signal carrying A's identity can never
/// deliver to B, whichever signal arrives first.
pub proof fn lemma_handshake_isolation(s: Seq<ArmedDelivery>, a: Seq<char>, b: Seq<char>)
    requires
        a != b,
    ensures
        spec_find(spec_deliver(s, a), b) == spec_find(s, b),
    decreases s.len(),
{
    if s.len() > 0 {
        if s[0].label@ == a {
            assert(s[0].label@ != b);
        } else {
            lemma_handshake_isolation(s.drop_first(), a, b);
            let t = seq![s[0]] + spec_deliver(s.drop_first(), a);
            assert(t[0] == s[0]);
            assert(t.drop_first() =~= spec_deliver(s.drop_first(), a));
            if s[0].label@ != b {
                assert(spec_find(t, b) == spec_find(spec_deliver(s.drop_first(), a), b));
            }
        }
    }
}

/// Law: delivery is one-shot. Once the payload armed for an identity has
/// been delivered, nothing is armed for it any more, so a second ready
/// signal for the same window delivers nothing.
pub proof fn lemma_handshake_one_shot(s: Seq<ArmedDelivery>, label: Seq<char>)
    requires
        unique_labels(s),
    ensures
        spec_find(spec_deliver(s, label), label) is None,
    decreases s.len(),
{
    if s.len() > 0 {
        if s[0].label@ == label {
            assert forall|j: int| 0 <= j < s.drop_first().len() implies s.drop_first()[j].label@
                != label by {
                assert(s.drop_first()[j] == s[j + 1]);
                assert(s[0].label@ != s[j + 1].label@);
            }
            lemma_find_absent(s.drop_first(), label);
        } else {
            assert forall|i: int, j: int|
                0 <= i < j < s.drop_first().len() implies s.drop_first()[i].label@
                != s.drop_first()[j].label@ by {
                assert(s.drop_first()[i] == s[i + 1]);
                assert(s.drop_first()[j] == s[j + 1]);
            }
            lemma_handshake_one_shot(s.drop_first(), label);
            let t = seq![s[0]] + spec_deliver(s.drop_first(), label);
            assert(t[0] == s[0]);
            assert(t.drop_first() =~= spec_deliver(s.drop_first(), label));
        }
    }
}

/// Arming a fresh identity binds exactly the given payload to it.
pub proof fn lemma_find_push_fresh(s: Seq<ArmedDelivery>, e: ArmedDelivery)
    requires
        forall|j: int| 0 <= j < s.len() ==> s[j].label@ != e.label@,
    ensures
        spec_find(s.push(e), e.label@) == Some(e.payload),
    decreases s.len(),
{
    if s.len() == 0 {
        assert(s.push(e)[0] == e);
    } else {
        assert(s.push(e)[0] == s[0]);
        assert(s.push(e).drop_first() =~= s.drop_first().push(e));
        assert forall|j: int|
            0 <= j < s.drop_first().len() implies s.drop_first()[j].label@ != e.label@ by {
            assert(s.drop_first()[j] == s[j + 1]);
        }
        lemma_find_push_fresh(s.drop_first(), e);
    }
}

/// A delivery keeps the remaining identities unique.
pub proof fn lemma_deliver_unique(s: Seq<ArmedDelivery>, label: Seq<char>)
    requires
        unique_labels(s),
    ensures
        unique_labels(spec_deliver(s, label)),
    decreases s.len(),
{
    if s.len() > 0 {
        assert forall|i: int, j: int|
            0 <= i < j < s.drop_first().len() implies s.drop_first()[i].label@
            != s.drop_first()[j].label@ by {
            assert(s.drop_first()[i] == s[i + 1]);
            assert(s.drop_first()[j] == s[j + 1]);
        }
        if s[0].label@ != label {
            lemma_deliver_unique(s.drop_first(), label);
            lemma_deliver_subset(s.drop_first(), label);
            let rest = spec_deliver(s.drop_first(), label);
            let t = seq![s[0]] + rest;
            assert forall|i: int, j: int|
                0 <= i < j < t.len() implies t[i].label@ != t[j].label@ by {
                assert(t[0] == s[0]);
                if i == 0 {
                    assert(t[j] == rest[j - 1]);
                    let k = choose|k: int| 0 <= k < s.drop_first().len() && rest[j - 1]
                        == s.drop_first()[k];
                    assert(s.drop_first()[k] == s[k + 1]);
                    assert(s[0].label@ != s[k + 1].label@);
                } else {
                    assert(t[i] == rest[i - 1]);
                    assert(t[j] == rest[j - 1]);
                }
            }
        }
    }
}

/// Law: a delivery never arms anything new. Every entry still armed after a
/// delivery was armed before it, so cleanup and delivery only ever shrink
/// the registry.
pub proof fn lemma_deliver_subset(s: Seq<ArmedDelivery>, label: Seq<char>)
    ensures
        forall|i: int|
            0 <= i < spec_deliver(s, label).len() ==> exists|j: int|
                0 <= j < s.len() && #[trigger] spec_deliver(s, label)[i] == s[j],
        spec_deliver(s, label).len() <= s.len(),
    decreases s.len(),
{
    if s.len() > 0 {
        if s[0].label@ == label {
            assert forall|i: int| 0 <= i < spec_deliver(s, label).len() implies exists|j: int|
                0 <= j < s.len() && #[trigger] spec_deliver(s, label)[i] == s[j] by {
                assert(spec_deliver(s, label)[i] == s[i + 1]);
            }
        } else {
            lemma_deliver_subset(s.drop_first(), label);
            let t = seq![s[0]] + spec_deliver(s.drop_first(), label);
            assert forall|i: int| 0 <= i < t.len() implies exists|j: int|
                0 <= j < s.len() && #[trigger] t[i] == s[j] by {
                if i == 0 {
                    assert(t[0] == s[0]);
                } else {
                    assert(t[i] == spec_deliver(s.drop_first(), label)[i - 1]);
                    let j0 = choose|j0: int|
                        0 <= j0 < s.drop_first().len() && spec_deliver(s.drop_first(), label)[i - 1]
                            == s.drop_first()[j0];
                    assert(s.drop_first()[j0] == s[j0 + 1]);
                }
            }
        }
    }
}

} // verus!
