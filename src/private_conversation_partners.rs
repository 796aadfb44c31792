//! The order on usernames and the order-independent key of a private conversation.

use vstd::prelude::*;
use vstd::utf8::{decode_utf8, encode_utf8, encode_utf8_decode_utf8};

verus! {

/// Lexicographic order on byte strings: a proper prefix comes first.
pub open spec fn bytes_lt(a: Seq<u8>, b: Seq<u8>) -> bool
    decreases a.len(),
{
    if a.len() == 0 {
        b.len() > 0
    } else if b.len() == 0 {
        false
    } else if a[0] != b[0] {
        a[0] < b[0]
    } else {
        bytes_lt(a.drop_first(), b.drop_first())
    }
}

/// The order on usernames: lexicographic over their UTF-8 encodings.
pub open spec fn username_lt(a: Seq<char>, b: Seq<char>) -> bool {
    bytes_lt(encode_utf8(a), encode_utf8(b))
}

/// The normalized pair of two usernames: the lower one first.
pub open spec fn make_key(a: Seq<char>, b: Seq<char>) -> (Seq<char>, Seq<char>) {
    if username_lt(a, b) {
        (a, b)
    } else {
        (b, a)
    }
}

/// No byte string comes before itself, and of two byte strings at most one
/// comes before the other.
pub proof fn lemma_bytes_lt_asymmetric(a: Seq<u8>, b: Seq<u8>)
    ensures
        !(bytes_lt(a, b) && bytes_lt(b, a)),
    decreases a.len(),
{
    if a.len() > 0 && b.len() > 0 && a[0] == b[0] {
        lemma_bytes_lt_asymmetric(a.drop_first(), b.drop_first());
    }
}

/// Of two distinct byte strings one comes before the other.
pub proof fn lemma_bytes_lt_total(a: Seq<u8>, b: Seq<u8>)
    requires
        a != b,
    ensures
        bytes_lt(a, b) || bytes_lt(b, a),
    decreases a.len(),
{
    if a.len() == 0 {
        assert(b.len() > 0) by {
            if b.len() == 0 {
                assert(a =~= b);
            }
        }
    } else if b.len() > 0 && a[0] == b[0] {
        if a.drop_first() == b.drop_first() {
            assert(a =~= seq![a[0]] + a.drop_first());
            assert(b =~= seq![b[0]] + b.drop_first());
        }
        lemma_bytes_lt_total(a.drop_first(), b.drop_first());
    }
}

/// The order on usernames is a strict total order: exactly one of `a < b`,
/// `a == b`, `b < a` holds.
pub proof fn lemma_username_lt_trichotomy(a: Seq<char>, b: Seq<char>)
    ensures
        !username_lt(a, a),
        !(username_lt(a, b) && username_lt(b, a)),
        a != b ==> username_lt(a, b) || username_lt(b, a),
{
    lemma_bytes_lt_asymmetric(encode_utf8(a), encode_utf8(a));
    lemma_bytes_lt_asymmetric(encode_utf8(a), encode_utf8(b));
    if a != b {
        encode_utf8_decode_utf8(a);
        encode_utf8_decode_utf8(b);
        assert(decode_utf8(encode_utf8(a)) != decode_utf8(encode_utf8(b)));
        lemma_bytes_lt_total(encode_utf8(a), encode_utf8(b));
    }
}

/// The key of a pair of usernames does not depend on the order in which
/// the two are given.
pub proof fn lemma_make_key_symmetric(a: Seq<char>, b: Seq<char>)
    ensures
        make_key(a, b) == make_key(b, a),
{
    lemma_username_lt_trichotomy(a, b);
}

proof fn lemma_bytes_lt_step(a: Seq<u8>, b: Seq<u8>, i: int)
    requires
        0 <= i < a.len(),
        i < b.len(),
        a[i] == b[i],
    ensures
        bytes_lt(a.subrange(i, a.len() as int), b.subrange(i, b.len() as int)) == bytes_lt(
            a.subrange(i + 1, a.len() as int),
            b.subrange(i + 1, b.len() as int),
        ),
{
    let sa = a.subrange(i, a.len() as int);
    let sb = b.subrange(i, b.len() as int);
    assert(sa.drop_first() =~= a.subrange(i + 1, a.len() as int));
    assert(sb.drop_first() =~= b.subrange(i + 1, b.len() as int));
}

/// Whether `partner1` comes before `partner2` in the order on usernames.
pub fn compare_usernames(partner1: &String, partner2: &String) -> (r: bool)
    ensures
        r == username_lt(partner1@, partner2@),
{
    let a = partner1.as_str().as_bytes();
    let b = partner2.as_str().as_bytes();
    let ghost sa = a@;
    let ghost sb = b@;
    let mut i: usize = 0;
    assert(sa.subrange(0, sa.len() as int) =~= sa);
    assert(sb.subrange(0, sb.len() as int) =~= sb);
    while i < a.len() && i < b.len()
        invariant
            sa == a@,
            sb == b@,
            sa == encode_utf8(partner1@),
            sb == encode_utf8(partner2@),
            i <= a.len(),
            i <= b.len(),
            bytes_lt(sa, sb) == bytes_lt(
                sa.subrange(i as int, sa.len() as int),
                sb.subrange(i as int, sb.len() as int),
            ),
        decreases a.len() - i,
    {
        if a[i] != b[i] {
            return a[i] < b[i];
        }
        proof {
            lemma_bytes_lt_step(sa, sb, i as int);
        }
        i = i + 1;
    }
    i < b.len()
}

/// The key of a private conversation: the two partners' usernames, the lower
/// one in `partner1`. Built by `new`, two keys are equal exactly when they
/// name the same pair of users, whatever order the pair was given in.
#[derive(Debug, Clone, PartialEq, Eq, Hash)]
pub struct PrivateConversationPartnersHashmapKey {
    pub partner1: String,
    pub partner2: String,
}

impl View for PrivateConversationPartnersHashmapKey {
    type V = (Seq<char>, Seq<char>);

    open spec fn view(&self) -> (Seq<char>, Seq<char>) {
        (self.partner1@, self.partner2@)
    }
}

impl PrivateConversationPartnersHashmapKey {
    /// The partners are in normalized order.
    pub open spec fn wf(&self) -> bool {
        !username_lt(self.partner2@, self.partner1@)
    }

    /// The key of the conversation between `a` and `b`.
    pub fn new(a: String, b: String) -> (r: Self)
        ensures
            r@ == make_key(a@, b@),
            r.wf(),
    {
        proof {
            lemma_username_lt_trichotomy(a@, b@);
        }
        if compare_usernames(&a, &b) {
            PrivateConversationPartnersHashmapKey { partner1: a, partner2: b }
        } else {
            PrivateConversationPartnersHashmapKey { partner1: b, partner2: a }
        }
    }
}

} // verus!
