//! References into the local store, and the descriptors that it keeps.

use vstd::prelude::*;

use crate::keyed::TextMap;
use crate::text;

verus! {

/// The part of a reference behind its last slash.
pub open spec fn last_segment(reference: Seq<char>) -> Seq<char>
    decreases reference.len(),
{
    if reference.len() == 0 || reference.last() == '/' {
        Seq::empty()
    } else {
        last_segment(reference.drop_last()).push(reference.last())
    }
}

/// A reference with a tag: without one it gets the tag `latest`.
pub open spec fn tagged(reference: Seq<char>) -> Seq<char> {
    if last_segment(reference).contains(':') {
        reference
    } else {
        reference + ":latest"@
    }
}

proof fn lemma_segment(reference: Seq<char>, n: int)
    requires
        0 <= n <= reference.len(),
        n > 0 ==> reference[n - 1] == '/',
        forall|i: int| n <= i < reference.len() ==> reference[i] != '/',
    ensures
        last_segment(reference) == reference.skip(n),
    decreases reference.len(),
{
    if n < reference.len() {
        let rest = reference.drop_last();
        assert(reference.last() != '/');
        lemma_segment(rest, n);
        assert(rest.skip(n).push(reference.last()) =~= reference.skip(n));
    } else {
        assert(reference.skip(n) =~= Seq::empty());
    }
}

/// A reference with a tag: without one it gets the tag `latest`.
pub fn default_tag(reference: &str) -> (r: String)
    ensures
        r@ == tagged(reference@),
{
    let v = text::to_chars(reference);
    let mut n: usize = v.len();
    let mut colon = false;
    while n > 0 && v[n - 1] != '/'
        invariant
            n <= v@.len(),
            forall|i: int| n <= i < v@.len() ==> v@[i] != '/',
            colon == v@.skip(n as int).contains(':'),
        decreases n,
    {
        let ghost before = v@.skip(n as int);
        let c = v[n - 1];
        if c == ':' {
            colon = true;
        }
        n -= 1;
        proof {
            let now = v@.skip(n as int);
            assert(now =~= seq![c] + before);
            assert(now[0] == c);
            if before.contains(':') {
                let i = choose|i: int| 0 <= i < before.len() && before[i] == ':';
                assert(now[i + 1] == ':');
            }
            if now.contains(':') && c != ':' {
                let i = choose|i: int| 0 <= i < now.len() && now[i] == ':';
                assert(before[i - 1] == ':');
            }
        }
    }
    proof {
        lemma_segment(v@, n as int);
    }
    let mut out = reference.to_owned();
    if !colon {
        out.append(":latest");
    }
    out
}

proof fn lemma_segment_of_concat(a: Seq<char>, b: Seq<char>)
    requires
        !b.contains('/'),
    ensures
        last_segment(a + b) == last_segment(a) + b,
    decreases b.len(),
{
    if b.len() == 0 {
        assert(a + b =~= a);
        assert(last_segment(a) + b =~= last_segment(a));
    } else {
        let c = b.drop_last();
        assert forall|i: int| 0 <= i < c.len() implies c[i] != '/' by {
            assert(b[i] != '/' ) by {
                if b[i] == '/' {
                    assert(b.contains('/'));
                }
            }
        }
        assert(!c.contains('/'));
        lemma_segment_of_concat(a, c);
        assert((a + b).drop_last() =~= a + c);
        assert((a + b).last() == b.last());
        if b.last() == '/' {
            assert(b[b.len() - 1] == '/');
            assert(b.contains('/'));
        }
        assert(last_segment(a) + b =~= (last_segment(a) + c).push(b.last()));
    }
}

proof fn lemma_latest()
    ensures
        !(":latest"@).contains('/'),
        ":latest"@.contains(':'),
{
    reveal_strlit(":latest");
    assert(":latest"@[0] == ':');
    assert forall|i: int| 0 <= i < ":latest"@.len() implies ":latest"@[i] != '/' by {}
}

/// A tag is given once.
pub proof fn law_default_tag_idempotent(reference: Seq<char>)
    ensures
        tagged(tagged(reference)) == tagged(reference),
{
    lemma_latest();
    lemma_segment_of_concat(reference, ":latest"@);
    if !last_segment(reference).contains(':') {
        let all = last_segment(reference) + ":latest"@;
        assert(all[last_segment(reference).len() as int] == ":latest"@[0]) by {
            reveal_strlit(":latest");
        }
        assert(all.contains(':')) by {
            reveal_strlit(":latest");
            assert(all[last_segment(reference).len() as int] == ':');
        }
    }
}

/// A reference without a tag and the same reference with the tag `latest` are
/// the same once they have their tags.
pub proof fn law_default_tag_is_latest(reference: Seq<char>)
    requires
        !last_segment(reference).contains(':'),
    ensures
        tagged(reference) == tagged(reference + ":latest"@),
{
    law_default_tag_idempotent(reference);
}

/// A descriptor of the store: what kind of content a blob has, and its digest.
pub struct Descriptor {
    pub media_type: String,
    pub digest: String,
    pub size: u64,
    pub annotations: Option<TextMap>,
}

/// A manifest of the store.
pub struct Manifest {
    pub layers: Vec<Descriptor>,
}

impl Descriptor {
    /// An annotation's text.
    pub open spec fn annotation(self, key: Seq<char>) -> Option<Seq<char>> {
        match self.annotations {
            Some(a) => if a@.contains_key(key) {
                Some(a@[key])
            } else {
                None
            },
            None => None,
        }
    }

    /// An annotation's text.
    pub fn annotation_str(&self, key: &str) -> (r: Option<&String>)
        ensures
            match r {
                Some(s) => self.annotation(key@) == Some(s@),
                None => self.annotation(key@) is None,
            },
    {
        match &self.annotations {
            Some(a) => a.get(key),
            None => None,
        }
    }
}

/// The name under which the store keeps a model, given what it found for a
/// reference: the reference itself where it found nothing or no name.
pub open spec fn canonical(found: Option<Descriptor>, reference: Seq<char>) -> Seq<char> {
    match found {
        Some(d) => match d.annotation("org.opencontainers.image.ref.name"@) {
            Some(name) => name,
            None => reference,
        },
        None => reference,
    }
}

/// The name under which the store keeps a model.
pub fn canonical_ref(found: &Option<Descriptor>, reference: &str) -> (r: String)
    ensures
        r@ == canonical(*found, reference@),
{
    match found {
        Some(d) => match d.annotation_str("org.opencontainers.image.ref.name") {
            Some(name) => name.clone(),
            None => reference.to_owned(),
        },
        None => reference.to_owned(),
    }
}

} // verus!
