//! The table directory of a face: tags mapped to the tables' bytes.
use vstd::prelude::*;

use crate::types::Tag;

verus! {

// The directory is a `Vec` of records with unique tags rather than a
// `HashMap`: it keeps the tables in record order, so `Face::table_tags` lists
// them in an order fixed by the file rather than by a per-process hasher.

/// One table of a face.
#[derive(Clone, Copy)]
pub struct TableRecord<'a> {
    /// The table's tag.
    pub tag: Tag,
    /// The table's bytes.
    pub data: &'a [u8],
}

/// The records as (tag, bytes) pairs.
pub open spec fn pairs_of(v: Seq<TableRecord>) -> Seq<(u32, Seq<u8>)> {
    v.map_values(|r: TableRecord| (r.tag.0, r.data@))
}

/// The map that inserting the pairs in order builds; a later tag replaces an earlier one.
pub open spec fn map_of(s: Seq<(u32, Seq<u8>)>) -> Map<u32, Seq<u8>>
    decreases s.len(),
{
    if s.len() == 0 {
        Map::empty()
    } else {
        map_of(s.drop_last()).insert(s.last().0, s.last().1)
    }
}

/// No tag occurs twice.
pub open spec fn tags_unique(s: Seq<(u32, Seq<u8>)>) -> bool {
    forall|i: int, j: int| 0 <= i < j < s.len() ==> s[i].0 != s[j].0
}

/// The map holds exactly the tags of the pairs, each with its pair's bytes.
pub proof fn lemma_map_of_entries(s: Seq<(u32, Seq<u8>)>)
    requires
        tags_unique(s),
    ensures
        forall|j: int| 0 <= j < s.len() ==> map_of(s).contains_key(#[trigger] s[j].0) && map_of(s)[s[j].0] == s[j].1,
        forall|t: u32| map_of(s).contains_key(t) ==> exists|j: int| 0 <= j < s.len() && #[trigger] s[j].0 == t,
    decreases s.len(),
{
    if s.len() > 0 {
        let p = s.drop_last();
        lemma_map_of_entries(p);
        assert forall|j: int| 0 <= j < s.len() implies map_of(s).contains_key(#[trigger] s[j].0) && map_of(s)[s[j].0] == s[j].1 by {
            if j < s.len() - 1 {
                assert(p[j] == s[j]);
            }
        }
        assert forall|t: u32| map_of(s).contains_key(t) implies exists|j: int| 0 <= j < s.len() && #[trigger] s[j].0 == t by {
            if t != s.last().0 {
                assert(map_of(p).contains_key(t));
                let j = choose|j: int| 0 <= j < p.len() && #[trigger] p[j].0 == t;
                assert(s[j] == p[j]);
            } else {
                assert(s[s.len() - 1].0 == t);
            }
        }
    }
}

/// Replacing the bytes of a tag that occurs once replaces them in the map.
proof fn lemma_map_of_update(s: Seq<(u32, Seq<u8>)>, j: int, v: Seq<u8>)
    requires
        tags_unique(s),
        0 <= j < s.len(),
    ensures
        map_of(s.update(j, (s[j].0, v))) == map_of(s).insert(s[j].0, v),
    decreases s.len(),
{
    let t = s[j].0;
    let u = s.update(j, (t, v));
    if j == s.len() - 1 {
        assert(u.drop_last() =~= s.drop_last());
        assert(map_of(u) =~= map_of(s).insert(t, v));
    } else {
        let p = s.drop_last();
        assert(u.drop_last() =~= p.update(j, (t, v)));
        lemma_map_of_update(p, j, v);
        assert(s.last().0 != t);
        assert(map_of(u) =~= map_of(s).insert(t, v));
    }
}

/// Looks up `tag` among `tables`.
pub fn find_table<'a>(tables: &Vec<TableRecord<'a>>, tag: u32) -> (r: Option<usize>)
    requires
        tags_unique(pairs_of(tables@)),
    ensures
        r is None <==> !map_of(pairs_of(tables@)).contains_key(tag),
        r matches Some(i) ==> i < tables@.len() && tables@[i as int].tag.0 == tag
            && map_of(pairs_of(tables@))[tag] == tables@[i as int].data@,
{
    let mut i: usize = 0;
    while i < tables.len()
        invariant
            i <= tables@.len(),
            tags_unique(pairs_of(tables@)),
            forall|j: int| 0 <= j < i ==> #[trigger] tables@[j].tag.0 != tag,
        decreases tables@.len() - i,
    {
        if tables[i].tag.0 == tag {
            proof {
                lemma_map_of_entries(pairs_of(tables@));
                assert(pairs_of(tables@)[i as int] == (tables@[i as int].tag.0, tables@[i as int].data@));
            }
            return Some(i);
        }
        i = i + 1;
    }
    proof {
        lemma_map_of_entries(pairs_of(tables@));
        if map_of(pairs_of(tables@)).contains_key(tag) {
            let j = choose|j: int| 0 <= j < pairs_of(tables@).len() && #[trigger] pairs_of(tables@)[j].0 == tag;
            assert(tables@[j].tag.0 == tag);
        }
    }
    None
}

/// Sets the bytes of `rec.tag` to `rec.data`, adding the tag when it is new.
pub fn insert_table<'a>(tables: &mut Vec<TableRecord<'a>>, rec: TableRecord<'a>)
    requires
        tags_unique(pairs_of(old(tables)@)),
    ensures
        tags_unique(pairs_of(final(tables)@)),
        map_of(pairs_of(final(tables)@)) == map_of(pairs_of(old(tables)@)).insert(rec.tag.0, rec.data@),
{
    let ghost s = pairs_of(tables@);
    match find_table(tables, rec.tag.0) {
        Some(i) => {
            tables.set(i, rec);
            proof {
                lemma_map_of_update(s, i as int, rec.data@);
                assert(pairs_of(tables@) =~= s.update(i as int, (s[i as int].0, rec.data@)));
            }
        },
        None => {
            proof {
                lemma_map_of_entries(s);
            }
            tables.push(rec);
            proof {
                let n = pairs_of(tables@);
                assert(n.drop_last() =~= s);
                assert forall|i: int, j: int| 0 <= i < j < n.len() implies n[i].0 != n[j].0 by {
                    if j == n.len() - 1 {
                        assert(n[i] == s[i]);
                    } else {
                        assert(n[i] == s[i] && n[j] == s[j]);
                    }
                }
            }
        },
    }
}

} // verus!
