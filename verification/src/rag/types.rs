//! Data types of the RAG layer: chunks, retrieval hits, citations and configuration.
use vstd::prelude::*;
use crate::clock::unix_millis_now;
use crate::text::{decimal, push_str, str_eq, u64_to_decimal};

verus! {

/// Metadata attached to a chunk. `extra` holds the free-form key/value pairs in the
/// order their map is walked.
#[derive(Debug, Clone, Default)]
pub struct ChunkMetadata {
    pub source: Option<String>,
    pub document_title: Option<String>,
    pub author: Option<String>,
    pub created_at: Option<u64>,
    pub tags: Vec<String>,
    pub namespace: Option<String>,
    pub extra: Vec<(String, String)>,
}

/// Metadata with no field set.
pub open spec fn is_empty_metadata(m: ChunkMetadata) -> bool {
    &&& m.source is None
    &&& m.document_title is None
    &&& m.author is None
    &&& m.created_at is None
    &&& m.tags@.len() == 0
    &&& m.namespace is None
    &&& m.extra@.len() == 0
}

/// Two metadata records with the same contents.
pub open spec fn same_metadata(a: ChunkMetadata, b: ChunkMetadata) -> bool {
    &&& a.source == b.source
    &&& a.document_title == b.document_title
    &&& a.author == b.author
    &&& a.created_at == b.created_at
    &&& a.tags@ == b.tags@
    &&& a.namespace == b.namespace
    &&& a.extra@ == b.extra@
}

/// Copy of a list of strings.
pub fn copy_strings(v: &Vec<String>) -> (r: Vec<String>)
    ensures
        r@ == v@,
{
    let mut r: Vec<String> = Vec::new();
    let mut i: usize = 0;
    while i < v.len()
        invariant
            i <= v@.len(),
            r@ == v@.take(i as int),
        decreases v.len() - i,
    {
        proof {
            assert(v@.take(i + 1) =~= v@.take(i as int).push(v@[i as int]));
        }
        r.push(v[i].clone());
        i = i + 1;
    }
    proof {
        assert(v@.take(v@.len() as int) =~= v@);
    }
    r
}

/// Copy of a list of string pairs.
pub fn copy_pairs(v: &Vec<(String, String)>) -> (r: Vec<(String, String)>)
    ensures
        r@ == v@,
{
    let mut r: Vec<(String, String)> = Vec::new();
    let mut i: usize = 0;
    while i < v.len()
        invariant
            i <= v@.len(),
            r@ == v@.take(i as int),
        decreases v.len() - i,
    {
        proof {
            assert(v@.take(i + 1) =~= v@.take(i as int).push(v@[i as int]));
        }
        r.push((v[i].0.clone(), v[i].1.clone()));
        i = i + 1;
    }
    proof {
        assert(v@.take(v@.len() as int) =~= v@);
    }
    r
}

impl ChunkMetadata {
    /// A field-by-field copy.
    pub fn copy(&self) -> (r: ChunkMetadata)
        ensures
            same_metadata(r, *self),
    {
        ChunkMetadata {
            source: self.source.clone(),
            document_title: self.document_title.clone(),
            author: self.author.clone(),
            created_at: self.created_at,
            tags: copy_strings(&self.tags),
            namespace: self.namespace.clone(),
            extra: copy_pairs(&self.extra),
        }
    }

    /// Empty metadata.
    pub fn empty() -> (r: ChunkMetadata)
        ensures
            is_empty_metadata(r),
    {
        ChunkMetadata {
            source: None,
            document_title: None,
            author: None,
            created_at: None,
            tags: Vec::new(),
            namespace: None,
            extra: Vec::new(),
        }
    }
}

/// A document chunk. The embedding, when present, is held as the bit patterns of
/// the `f32` components it stands for.
#[derive(Debug, Clone)]
pub struct Chunk {
    pub id: String,
    pub document_id: String,
    pub chunk_index: u32,
    pub content: String,
    pub summary: Option<String>,
    pub metadata: ChunkMetadata,
    pub embedding_bits: Option<Vec<u32>>,
    pub created_at: u64,
    pub expires_at: Option<u64>,
}

impl Chunk {
    /// A chunk with empty metadata, stamped with the current time in milliseconds
    /// since the Unix epoch.
    pub fn new(id: String, document_id: String, content: String, chunk_index: u32) -> (c: Chunk)
        ensures
            c.id == id,
            c.document_id == document_id,
            c.content == content,
            c.chunk_index == chunk_index,
            c.summary is None,
            is_empty_metadata(c.metadata),
            c.embedding_bits is None,
            c.expires_at is None,
    {
        Chunk {
            id,
            document_id,
            chunk_index,
            content,
            summary: None,
            metadata: ChunkMetadata::empty(),
            embedding_bits: None,
            created_at: unix_millis_now(),
            expires_at: None,
        }
    }
}


/// The value a list of key/value pairs gives `k` when read as a map in which a
/// later pair overrides an earlier one.
pub open spec fn pair_lookup(s: Seq<(String, String)>, k: Seq<char>) -> Option<Seq<char>>
    decreases s.len(),
{
    if s.len() == 0 {
        None
    } else if s.last().0@ == k {
        Some(s.last().1@)
    } else {
        pair_lookup(s.drop_last(), k)
    }
}

/// No key occurs twice.
pub open spec fn keys_distinct(s: Seq<(String, String)>) -> bool {
    forall|i: int, j: int| 0 <= i < j < s.len() ==> s[i].0@ != s[j].0@
}

/// The strings joined with `sep` between neighbours.
pub open spec fn join_with(s: Seq<Seq<char>>, sep: Seq<char>) -> Seq<char>
    decreases s.len(),
{
    if s.len() == 0 {
        Seq::empty()
    } else if s.len() == 1 {
        s[0]
    } else {
        join_with(s.drop_last(), sep) + sep + s.last()
    }
}

/// Sets `key` to `value` in a list of pairs read as a map: every pair with that
/// key is removed, the others keep their order, and the new pair is appended.
pub fn set_pair(v: &mut Vec<(String, String)>, key: String, value: String)
    ensures
        forall|k: Seq<char>| #[trigger] pair_lookup(final(v)@, k)
            == if k == key@ { Some(value@) } else { pair_lookup(old(v)@, k) },
        keys_distinct(old(v)@) ==> keys_distinct(final(v)@),
{
    let ghost o = v@;
    let mut r: Vec<(String, String)> = Vec::new();
    let mut i: usize = 0;
    while i < v.len()
        invariant
            v@ == o,
            i <= o.len(),
            forall|k: Seq<char>| k != key@ ==> #[trigger] pair_lookup(r@, k) == pair_lookup(o.take(i as int), k),
            forall|j: int| 0 <= j < r@.len() ==> (#[trigger] r@[j]).0@ != key@,
            forall|j: int| #![trigger r@[j]] 0 <= j < r@.len() ==> exists|m: int| 0 <= m < i && #[trigger] o[m] == r@[j],
            keys_distinct(o) ==> keys_distinct(r@),
        decreases v.len() - i,
    {
        let ghost before = r@;
        proof {
            assert(o.take(i + 1).drop_last() =~= o.take(i as int));
            assert(o.take(i + 1).last() == o[i as int]);
        }
        let same = str_eq(v[i].0.as_str(), key.as_str());
        if !same {
            r.push((v[i].0.clone(), v[i].1.clone()));
            proof {
                assert(r@.drop_last() =~= before);
                assert forall|k: Seq<char>| k != key@ implies #[trigger] pair_lookup(r@, k)
                    == pair_lookup(o.take(i + 1), k) by {
                    assert(pair_lookup(before, k) == pair_lookup(o.take(i as int), k));
                }
                assert forall|j: int| #![trigger r@[j]] 0 <= j < r@.len() implies exists|m: int| 0 <= m < i + 1 && #[trigger] o[m] == r@[j] by {
                    if j < before.len() {
                        let m = choose|m: int| 0 <= m < i && #[trigger] o[m] == before[j];
                        assert(o[m] == r@[j]);
                    } else {
                        assert(o[i as int] == r@[j]);
                    }
                }
                if keys_distinct(o) {
                    assert forall|a: int, b: int| 0 <= a < b < r@.len() implies r@[a].0@ != r@[b].0@ by {
                        if b == before.len() {
                            let m = choose|m: int| 0 <= m < i && #[trigger] o[m] == before[a];
                            assert(o[m].0@ != o[i as int].0@);
                        } else {
                            assert(before[a].0@ != before[b].0@);
                        }
                    }
                }
            }
        } else {
            proof {
                assert forall|k: Seq<char>| k != key@ implies #[trigger] pair_lookup(r@, k)
                    == pair_lookup(o.take(i + 1), k) by {
                    assert(pair_lookup(before, k) == pair_lookup(o.take(i as int), k));
                }
            }
        }
        i = i + 1;
    }
    proof {
        assert(o.take(o.len() as int) =~= o);
    }
    let ghost kept = r@;
    r.push((key, value));
    proof {
        assert(r@.drop_last() =~= kept);
        assert forall|k: Seq<char>| #[trigger] pair_lookup(r@, k)
            == if k == key@ { Some(value@) } else { pair_lookup(o, k) } by {
            if k != key@ {
                assert(pair_lookup(kept, k) == pair_lookup(o.take(o.len() as int), k));
            }
        }
        if keys_distinct(o) {
            assert forall|a: int, b: int| 0 <= a < b < r@.len() implies r@[a].0@ != r@[b].0@ by {
                if b == kept.len() {
                    assert(kept[a].0@ != key@);
                } else {
                    assert(kept[a].0@ != kept[b].0@);
                }
            }
        }
    }
    *v = r;
}

/// The strings joined with `sep` (what `join` gives).
pub fn join_strings(parts: &Vec<String>, sep: &str) -> (r: String)
    ensures
        r@ == join_with(parts@.map_values(|t: String| t@), sep@),
{
    let ghost all = parts@.map_values(|t: String| t@);
    let mut out = String::new();
    let mut i: usize = 0;
    while i < parts.len()
        invariant
            i <= parts@.len(),
            all == parts@.map_values(|t: String| t@),
            out@ == join_with(all.take(i as int), sep@),
        decreases parts.len() - i,
    {
        proof {
            assert(all.take(i + 1).drop_last() =~= all.take(i as int));
            assert(all.take(i + 1).last() == parts@[i as int]@);
        }
        if i > 0 {
            push_str(&mut out, sep);
        } else {
            proof {
                assert(all.take(i as int) =~= Seq::<Seq<char>>::empty());
            }
        }
        push_str(&mut out, parts[i].as_str());
        proof {
            if i == 0 {
                assert(out@ =~= all.take(1)[0]);
            }
        }
        i = i + 1;
    }
    proof {
        assert(all.take(parts@.len() as int) =~= all);
    }
    out
}

/// What a hit's metadata map holds for key `k`: the metadata's fields that are
/// set (the namespace, the tags joined by commas, the creation stamp in
/// decimal, the author, the document title, the source) and the document id,
/// over the free-form pairs.
pub open spec fn metadata_entry(m: ChunkMetadata, document_id: Seq<char>, k: Seq<char>) -> Option<Seq<char>> {
    if k == "namespace"@ && m.namespace is Some {
        Some(m.namespace->0@)
    } else if k == "tags"@ && m.tags@.len() > 0 {
        Some(join_with(m.tags@.map_values(|t: String| t@), ","@))
    } else if k == "created_at"@ && m.created_at is Some {
        Some(decimal(m.created_at->0 as nat))
    } else if k == "author"@ && m.author is Some {
        Some(m.author->0@)
    } else if k == "document_title"@ && m.document_title is Some {
        Some(m.document_title->0@)
    } else if k == "source"@ && m.source is Some {
        Some(m.source->0@)
    } else if k == "document_id"@ {
        Some(document_id)
    } else {
        pair_lookup(m.extra@, k)
    }
}

/// The metadata of a hit as a flat string map (see [`metadata_entry`]).
pub fn chunk_metadata_to_map(metadata: &ChunkMetadata, document_id: &str) -> (r: Vec<(String, String)>)
    ensures
        forall|k: Seq<char>| #[trigger] pair_lookup(r@, k) == metadata_entry(*metadata, document_id@, k),
        keys_distinct(metadata.extra@) ==> keys_distinct(r@),
{
    let mut map = copy_pairs(&metadata.extra);
    set_pair(&mut map, String::from_str("document_id"), String::from_str(document_id));
    let ghost m1 = map@;
    if let Some(source) = &metadata.source {
        set_pair(&mut map, String::from_str("source"), source.clone());
    }
    let ghost m2 = map@;
    if let Some(title) = &metadata.document_title {
        set_pair(&mut map, String::from_str("document_title"), title.clone());
    }
    let ghost m3 = map@;
    if let Some(author) = &metadata.author {
        set_pair(&mut map, String::from_str("author"), author.clone());
    }
    let ghost m4 = map@;
    if let Some(created_at) = metadata.created_at {
        set_pair(&mut map, String::from_str("created_at"), u64_to_decimal(created_at));
    }
    let ghost m5 = map@;
    if metadata.tags.len() > 0 {
        set_pair(&mut map, String::from_str("tags"), join_strings(&metadata.tags, ","));
    }
    let ghost m6 = map@;
    if let Some(namespace) = &metadata.namespace {
        set_pair(&mut map, String::from_str("namespace"), namespace.clone());
    }
    proof {
        assert forall|k: Seq<char>| #[trigger] pair_lookup(map@, k) == metadata_entry(*metadata, document_id@, k) by {
            assert(pair_lookup(map@, k) == pair_lookup(m6, k) || k == "namespace"@);
            assert(pair_lookup(m6, k) == pair_lookup(m5, k) || k == "tags"@);
            assert(pair_lookup(m5, k) == pair_lookup(m4, k) || k == "created_at"@);
            assert(pair_lookup(m4, k) == pair_lookup(m3, k) || k == "author"@);
            assert(pair_lookup(m3, k) == pair_lookup(m2, k) || k == "document_title"@);
            assert(pair_lookup(m2, k) == pair_lookup(m1, k) || k == "source"@);
        }
    }
    map
}

} // verus!
