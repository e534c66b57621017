//! Snapshot names: `pool/dataset@tag`.
//!
//! The first `@` parts the object's name from the tag. Pools are named
//! differently from server to server, so two servers hold the same snapshot
//! where the tags are the same.

use crate::api::{Dataset, DatasetView};
use crate::error::{ErrorCode, ErrorView};
use crate::text::{
    chars_of, cut, find_char, holds, lemma_position, lemma_position_is, position, same_text, texts,
};
use vstd::prelude::*;

verus! {

/// The tag of the snapshot named `name`: what follows the first `@`. A name
/// without `@` has no tag.
pub open spec fn tag(name: Seq<char>) -> Option<Seq<char>> {
    let at = position(name, '@') as int;
    if at < name.len() {
        Some(name.skip(at + 1))
    } else {
        None
    }
}

/// Pool, dataset and tag of the snapshot named `name`. The first `@` ends the
/// object's name, and the first `/` of the object's name ends the pool; a name
/// without `@`, or without `/` before it, names no snapshot.
pub open spec fn parsed(name: Seq<char>) -> Option<DatasetView> {
    let at = position(name, '@') as int;
    let object = name.take(at);
    let slash = position(object, '/') as int;
    if at < name.len() && slash < at {
        Some(
            DatasetView {
                pool: object.take(slash),
                dataset: object.skip(slash + 1),
                snapshot: name.skip(at + 1),
            },
        )
    } else {
        None
    }
}

/// The name of the snapshot with the given pool, dataset and tag.
pub open spec fn full_name(parts: DatasetView) -> Seq<char> {
    parts.pool + seq!['/'] + parts.dataset + seq!['@'] + parts.snapshot
}

/// Putting the parts of a snapshot's name together again gives the name.
pub proof fn lemma_parse_then_name(name: Seq<char>)
    requires
        parsed(name) is Some,
    ensures
        full_name(parsed(name)->Some_0) == name,
{
    let at = position(name, '@') as int;
    let object = name.take(at);
    let slash = position(object, '/') as int;
    lemma_position(name, '@');
    lemma_position(object, '/');
    assert(full_name(parsed(name)->Some_0) =~= name);
}

/// Parting the name made of a pool without `/` or `@`, a dataset without `@`
/// and a tag gives these three back.
pub proof fn lemma_name_then_parse(parts: DatasetView)
    requires
        !holds(parts.pool, '/'),
        !holds(parts.pool, '@'),
        !holds(parts.dataset, '@'),
    ensures
        parsed(full_name(parts)) == Some(parts),
        tag(full_name(parts)) == Some(parts.snapshot),
{
    let name = full_name(parts);
    let at = parts.pool.len() + 1 + parts.dataset.len();
    lemma_position(parts.pool, '/');
    lemma_position(parts.pool, '@');
    lemma_position(parts.dataset, '@');
    assert forall|j: int| 0 <= j < at implies name[j] != '@' by {
        if j < parts.pool.len() {
            assert(name[j] == parts.pool[j]);
        } else if j > parts.pool.len() {
            assert(name[j] == parts.dataset[j - parts.pool.len() - 1]);
        }
    }
    lemma_position_is(name, '@', at as int);
    let object = name.take(at as int);
    assert forall|j: int| 0 <= j < parts.pool.len() implies object[j] != '/' by {
        assert(object[j] == parts.pool[j]);
    }
    lemma_position_is(object, '/', parts.pool.len() as int);
    let got = parsed(name)->Some_0;
    assert(got.pool =~= parts.pool);
    assert(got.dataset =~= parts.dataset);
    assert(got.snapshot =~= parts.snapshot);
}

/// The tag of a snapshot's name does not depend on the pool: with one dataset
/// and one tag, the names under two pools have the same tag.
pub proof fn lemma_tag_ignores_pool(
    pool: Seq<char>,
    other_pool: Seq<char>,
    dataset: Seq<char>,
    snapshot: Seq<char>,
)
    requires
        !holds(pool, '/'),
        !holds(pool, '@'),
        !holds(other_pool, '/'),
        !holds(other_pool, '@'),
        !holds(dataset, '@'),
    ensures
        tag(full_name(DatasetView { pool, dataset, snapshot })) == tag(
            full_name(DatasetView { pool: other_pool, dataset, snapshot }),
        ),
{
    lemma_name_then_parse(DatasetView { pool, dataset, snapshot });
    lemma_name_then_parse(DatasetView { pool: other_pool, dataset, snapshot });
}

/// The tag of the snapshot named `name`.
pub fn tag_of(name: &str) -> (out: Option<String>)
    ensures
        out matches Some(t) ==> tag(name@) == Some(t@),
        out is None ==> tag(name@) is None,
{
    let chars = chars_of(name);
    assert(name@.skip(0) == name@);
    let at = find_char(&chars, 0, '@');
    if at < chars.len() {
        assert(name@.skip(at + 1) == name@.subrange(at + 1, name@.len() as int));
        Some(cut(name, at + 1, chars.len()))
    } else {
        None
    }
}

/// Pool, dataset and tag of the snapshot named `name`.
pub fn parse_snapshot_name(name: &str) -> (out: Option<Dataset>)
    ensures
        out matches Some(parts) ==> parsed(name@) == Some(parts@),
        out is None ==> parsed(name@) is None,
{
    let chars = chars_of(name);
    assert(name@.skip(0) == name@);
    let at = find_char(&chars, 0, '@');
    let slash = find_char(&chars, 0, '/');
    proof {
        let object = name@.take(at as int);
        lemma_position(name@, '/');
        lemma_position(object, '/');
        if slash < at {
            assert forall|j: int| 0 <= j < slash implies object[j] != '/' by {
                assert(object[j] == name@[j]);
            }
            assert(object[slash as int] == name@[slash as int]);
            lemma_position_is(object, '/', slash as int);
        } else {
            assert forall|j: int| 0 <= j < at implies object[j] != '/' by {
                assert(object[j] == name@[j]);
            }
            lemma_position_is(object, '/', at as int);
        }
    }
    if at < chars.len() && slash < at {
        proof {
            let object = name@.take(at as int);
            assert(object.take(slash as int) == name@.subrange(0, slash as int));
            assert(object.skip(slash + 1) == name@.subrange(slash + 1, at as int));
            assert(name@.skip(at + 1) == name@.subrange(at + 1, name@.len() as int));
        }
        Some(
            Dataset {
                pool: cut(name, 0, slash),
                dataset: cut(name, slash + 1, at),
                snapshot: cut(name, at + 1, chars.len()),
            },
        )
    } else {
        None
    }
}

impl Dataset {
    /// The name of the snapshot: `pool/dataset@tag`.
    pub fn name(&self) -> (out: String)
        ensures
            out@ == full_name(self@),
    {
        proof {
            reveal_strlit("/");
            reveal_strlit("@");
            assert("/"@ =~= seq!['/']);
            assert("@"@ =~= seq!['@']);
        }
        let mut out = self.pool.clone();
        out.append("/");
        out.append(self.dataset.as_str());
        out.append("@");
        out.append(self.snapshot.as_str());
        out
    }
}

/// Whether the snapshot named `name` has a tag, and one of `others` has the same.
pub open spec fn shares_tag(name: Seq<char>, others: Seq<Seq<char>>) -> bool {
    tag(name) is Some && holds(others.map_values(|o: Seq<char>| tag(o)), tag(name))
}

/// The index of the first of `ours` whose tag one of `theirs` has too, or the
/// length of `ours` when the two lists share no tag.
pub open spec fn common_index(ours: Seq<Seq<char>>, theirs: Seq<Seq<char>>) -> nat {
    position(ours.map_values(|n: Seq<char>| shares_tag(n, theirs)), true)
}

/// Whether one of `names` has the tag `wanted`.
fn has_tag(names: &Vec<String>, wanted: &str) -> (yes: bool)
    ensures
        yes == holds(texts(names@).map_values(|o: Seq<char>| tag(o)), Some(wanted@)),
{
    let ghost tags = texts(names@).map_values(|o: Seq<char>| tag(o));
    let mut i: usize = 0;
    while i < names.len()
        invariant
            i <= names.len(),
            tags == texts(names@).map_values(|o: Seq<char>| tag(o)),
            forall|j: int| 0 <= j < i ==> tags[j] != Some(wanted@),
        decreases names.len() - i,
    {
        let found = match tag_of(names[i].as_str()) {
            Some(t) => same_text(t.as_str(), wanted),
            None => false,
        };
        if found {
            proof {
                lemma_position_is(tags, Some(wanted@), i as int);
            }
            return true;
        }
        i += 1;
    }
    proof {
        lemma_position_is(tags, Some(wanted@), i as int);
    }
    false
}

/// The snapshot from which an increment can be sent: the first of
/// `src_snapshots`, which lists the owner's snapshots from the newest on,
/// whose tag a snapshot of `dst_snapshots` has too. Where the lists share no
/// tag the answer is `NoCommonSnapshot` for `dataset`.
pub fn find_latest_common_snapshot(
    dataset: &str,
    src_snapshots: &Vec<String>,
    dst_snapshots: &Vec<String>,
) -> (out: Result<String, ErrorCode>)
    ensures
        match out {
            Ok(name) => {
                &&& common_index(texts(src_snapshots@), texts(dst_snapshots@)) < src_snapshots.len()
                &&& name@ == src_snapshots[common_index(
                    texts(src_snapshots@),
                    texts(dst_snapshots@),
                ) as int]@
            },
            Err(e) => {
                &&& common_index(texts(src_snapshots@), texts(dst_snapshots@))
                    >= src_snapshots.len()
                &&& e@ == (ErrorView::NoCommonSnapshot { dataset: dataset@ })
            },
        },
{
    let ghost ours = texts(src_snapshots@);
    let ghost theirs = texts(dst_snapshots@);
    let ghost shared = ours.map_values(|n: Seq<char>| shares_tag(n, theirs));
    let mut i: usize = 0;
    while i < src_snapshots.len()
        invariant
            i <= src_snapshots.len(),
            ours == texts(src_snapshots@),
            theirs == texts(dst_snapshots@),
            shared == ours.map_values(|n: Seq<char>| shares_tag(n, theirs)),
            forall|j: int| 0 <= j < i ==> !shared[j],
        decreases src_snapshots.len() - i,
    {
        let found = match tag_of(src_snapshots[i].as_str()) {
            Some(t) => has_tag(dst_snapshots, t.as_str()),
            None => false,
        };
        if found {
            proof {
                assert(shared[i as int]);
                lemma_position_is(shared, true, i as int);
            }
            return Ok(src_snapshots[i].clone());
        }
        assert(!shared[i as int]);
        i += 1;
    }
    proof {
        lemma_position_is(shared, true, i as int);
    }
    Err(ErrorCode::NoCommonSnapshot { dataset: dataset.to_owned() })
}

/// Whether the snapshots named `latest`, the latest of each server, are one
/// snapshot: there is a server, each name has a tag, and the tags are the same.
pub open spec fn agreed(latest: Seq<Seq<char>>) -> bool {
    &&& latest.len() > 0
    &&& tag(latest[0]) is Some
    &&& forall|i: int| 0 <= i < latest.len() ==> tag(#[trigger] latest[i]) == tag(latest[0])
}

/// Whether the servers agree on the latest snapshot depends on the tags of
/// the names alone: two fleets whose names have the same tags, server by
/// server, agree or disagree together, whatever their pools are called.
pub proof fn lemma_agreement_by_tags(ours: Seq<Seq<char>>, theirs: Seq<Seq<char>>)
    requires
        ours.len() == theirs.len(),
        forall|i: int| 0 <= i < ours.len() ==> tag(#[trigger] ours[i]) == tag(theirs[i]),
    ensures
        agreed(ours) == agreed(theirs),
{
    if ours.len() > 0 {
        assert(tag(ours[0]) == tag(theirs[0]));
        if agreed(ours) {
            assert forall|i: int| 0 <= i < theirs.len() implies tag(#[trigger] theirs[i]) == tag(
                theirs[0],
            ) by {
                assert(tag(ours[i]) == tag(theirs[i]));
            }
        }
        if agreed(theirs) {
            assert forall|i: int| 0 <= i < ours.len() implies tag(#[trigger] ours[i]) == tag(
                ours[0],
            ) by {
                assert(tag(ours[i]) == tag(theirs[i]));
            }
        }
    }
}

/// Whether the snapshots named `latest`, the latest of each server, are one snapshot.
pub fn all_agree(latest: &Vec<String>) -> (out: bool)
    ensures
        out == agreed(texts(latest@)),
{
    if latest.len() == 0 {
        return false;
    }
    let first = match tag_of(latest[0].as_str()) {
        Some(t) => t,
        None => {
            return false;
        },
    };
    let ghost names = texts(latest@);
    let mut i: usize = 1;
    while i < latest.len()
        invariant
            1 <= i <= latest.len(),
            names == texts(latest@),
            tag(names[0]) == Some(first@),
            forall|j: int| 0 <= j < i ==> tag(#[trigger] names[j]) == tag(names[0]),
        decreases latest.len() - i,
    {
        let same = match tag_of(latest[i].as_str()) {
            Some(t) => same_text(t.as_str(), first.as_str()),
            None => false,
        };
        if !same {
            assert(tag(names[i as int]) != tag(names[0]));
            return false;
        }
        i += 1;
    }
    true
}

/// Which snapshot two servers share depends on the tags of the names alone:
/// with the same tags, name by name, the first shared snapshot stands at the
/// same place in the owner's list, whatever the pools are called.
pub proof fn lemma_common_by_tags(
    ours: Seq<Seq<char>>,
    theirs: Seq<Seq<char>>,
    our_other: Seq<Seq<char>>,
    their_other: Seq<Seq<char>>,
)
    requires
        ours.len() == our_other.len(),
        theirs.len() == their_other.len(),
        forall|i: int| 0 <= i < ours.len() ==> tag(#[trigger] ours[i]) == tag(our_other[i]),
        forall|i: int| 0 <= i < theirs.len() ==> tag(#[trigger] theirs[i]) == tag(their_other[i]),
    ensures
        common_index(ours, theirs) == common_index(our_other, their_other),
{
    let tags = theirs.map_values(|o: Seq<char>| tag(o));
    let other_tags = their_other.map_values(|o: Seq<char>| tag(o));
    assert(tags =~= other_tags) by {
        assert forall|i: int| 0 <= i < tags.len() implies tags[i] == other_tags[i] by {
            assert(tag(theirs[i]) == tag(their_other[i]));
        }
    }
    let shared = ours.map_values(|n: Seq<char>| shares_tag(n, theirs));
    let other_shared = our_other.map_values(|n: Seq<char>| shares_tag(n, their_other));
    assert(shared =~= other_shared) by {
        assert forall|i: int| 0 <= i < shared.len() implies shared[i] == other_shared[i] by {
            assert(tag(ours[i]) == tag(our_other[i]));
        }
    }
}

} // verus!
