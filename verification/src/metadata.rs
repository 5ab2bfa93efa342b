//! Browsing the stored documents by tag, by tag pattern and by domain.
use vstd::prelude::*;

use crate::conversion::{present, present_values};
use crate::text::{
    all_ascii, ascii_lower, ascii_upper, contains, lemma_ascii_case_round, lowercase, occurs_at,
    str_contains, str_eq, to_lowercase,
};

verus! {

/// The metadata of a stored document, as the API returns it.
#[derive(Debug, Clone)]
pub struct MetadataRecord {
    pub id: String,
    pub domain: String,
    pub tags: Vec<Option<String>>,
}

/// A stored document, as the API returns it.
#[derive(Debug, Clone)]
pub struct DataObjectRecord {
    pub id: String,
    pub title: String,
    pub description: String,
    pub created_at: String,
    pub metadata: MetadataRecord,
}

/// The document part of a listed entry.
#[derive(Debug, Clone)]
pub struct DataObjectForTemplate {
    pub id: String,
    pub title: String,
    pub description: String,
}

/// One entry of a metadata listing page.
#[derive(Debug, Clone)]
pub struct MetadataForTemplate {
    pub id: String,
    pub domain: String,
    pub tags: Vec<String>,
    pub created_at: String,
    pub data_object: Option<DataObjectForTemplate>,
}

/// `e` lists the document `o`: its metadata id, domain and present tags, its
/// creation date, and its id, title and description.
pub open spec fn lists(e: MetadataForTemplate, o: DataObjectRecord) -> bool {
    &&& e.id@ == o.metadata.id@
    &&& e.domain@ == o.metadata.domain@
    &&& e.tags.deep_view() == present(o.metadata.tags.deep_view())
    &&& e.created_at@ == o.created_at@
    &&& e.data_object matches Some(d) && d.id@ == o.id@ && d.title@ == o.title@ && d.description@
        == o.description@
}

/// The documents whose flag is set, in their order.
pub open spec fn kept(objs: Seq<DataObjectRecord>, flags: Seq<bool>) -> Seq<DataObjectRecord>
    decreases objs.len(),
{
    if objs.len() == 0 {
        seq![]
    } else {
        let rest = kept(objs.drop_last(), flags);
        if flags[objs.len() - 1] {
            rest.push(objs.last())
        } else {
            rest
        }
    }
}

/// `r` lists the documents `docs`, one entry each, in order.
pub open spec fn lists_all(r: Seq<MetadataForTemplate>, docs: Seq<DataObjectRecord>) -> bool {
    &&& r.len() == docs.len()
    &&& forall|i: int| 0 <= i < r.len() ==> lists(#[trigger] r[i], docs[i])
}

/// The listing entry of one document.
pub fn entry_for(o: &DataObjectRecord) -> (r: MetadataForTemplate)
    ensures
        lists(r, *o),
{
    MetadataForTemplate {
        id: o.metadata.id.clone(),
        domain: o.metadata.domain.clone(),
        tags: present_values(&o.metadata.tags),
        created_at: o.created_at.clone(),
        data_object: Some(
            DataObjectForTemplate {
                id: o.id.clone(),
                title: o.title.clone(),
                description: o.description.clone(),
            },
        ),
    }
}

fn entries_for(objs: &Vec<DataObjectRecord>, flags: &Vec<bool>) -> (r: Vec<MetadataForTemplate>)
    requires
        flags.len() == objs.len(),
    ensures
        lists_all(r@, kept(objs@, flags@)),
{
    let mut r: Vec<MetadataForTemplate> = Vec::new();
    let n = objs.len();
    for i in 0..n
        invariant
            n == objs.len(),
            n == flags.len(),
            lists_all(r@, kept(objs@.take(i as int), flags@)),
    {
        assert(objs@.take(i + 1).drop_last() =~= objs@.take(i as int));
        assert(objs@.take(i + 1).last() == objs@[i as int]);
        if flags[i] {
            let e = entry_for(&objs[i]);
            r.push(e);
        }
        assert(lists_all(r@, kept(objs@.take(i + 1), flags@)));
    }
    assert(objs@.take(n as int) =~= objs@);
    r
}

/// The document carries `tag` among its tags.
pub open spec fn has_tag(o: DataObjectRecord, tag: Seq<char>) -> bool {
    exists|i: int|
        0 <= i < o.metadata.tags.deep_view().len() && o.metadata.tags.deep_view()[i] == Some(tag)
}

/// One of the document's tags, taken in lower case, contains `lowered`.
pub open spec fn matches_lowered(o: DataObjectRecord, lowered: Seq<char>) -> bool {
    exists|i: int|
        0 <= i < o.metadata.tags.deep_view().len() && (#[trigger] o.metadata.tags.deep_view()[i]
            matches Some(t) && contains(lowercase(t), lowered))
}

/// One of the document's tags contains `pattern`, both taken in lower case.
pub open spec fn matches_pattern(o: DataObjectRecord, pattern: Seq<char>) -> bool {
    matches_lowered(o, lowercase(pattern))
}

/// The document belongs to `domain`.
pub open spec fn in_domain(o: DataObjectRecord, domain: Seq<char>) -> bool {
    o.metadata.domain@ == domain
}

pub open spec fn tag_flags(objs: Seq<DataObjectRecord>, tag: Seq<char>) -> Seq<bool> {
    Seq::new(objs.len(), |i: int| has_tag(objs[i], tag))
}

pub open spec fn pattern_flags(objs: Seq<DataObjectRecord>, pattern: Seq<char>) -> Seq<bool> {
    Seq::new(objs.len(), |i: int| matches_pattern(objs[i], pattern))
}

pub open spec fn lowered_flags(objs: Seq<DataObjectRecord>, lowered: Seq<char>) -> Seq<bool> {
    Seq::new(objs.len(), |i: int| matches_lowered(objs[i], lowered))
}

pub open spec fn domain_flags(objs: Seq<DataObjectRecord>, domain: Seq<char>) -> Seq<bool> {
    Seq::new(objs.len(), |i: int| in_domain(objs[i], domain))
}

fn carries_tag(o: &DataObjectRecord, tag: &str) -> (r: bool)
    ensures
        r == has_tag(*o, tag@),
{
    let n = o.metadata.tags.len();
    let ghost tv = o.metadata.tags.deep_view();
    for i in 0..n
        invariant
            n == o.metadata.tags.len(),
            tv == o.metadata.tags.deep_view(),
            forall|k: int| 0 <= k < i ==> tv[k] != Some(tag@),
    {
        match &o.metadata.tags[i] {
            Some(t) => {
                if str_eq(t.as_str(), tag) {
                    assert(tv[i as int] == Some(tag@));
                    return true;
                }
            },
            None => {},
        }
        assert(tv[i as int] != Some(tag@));
    }
    false
}

fn tags_contain(o: &DataObjectRecord, lowered: &str, Ghost(pattern): Ghost<Seq<char>>) -> (r:
    bool)
    requires
        lowered@ == lowercase(pattern),
    ensures
        r == matches_pattern(*o, pattern),
{
    let n = o.metadata.tags.len();
    let ghost tv = o.metadata.tags.deep_view();
    for i in 0..n
        invariant
            n == o.metadata.tags.len(),
            tv == o.metadata.tags.deep_view(),
            lowered@ == lowercase(pattern),
            forall|k: int|
                0 <= k < i ==> !(#[trigger] tv[k] matches Some(t) && contains(
                    lowercase(t),
                    lowercase(pattern),
                )),
    {
        match &o.metadata.tags[i] {
            Some(t) => {
                let lt = to_lowercase(t.as_str());
                if str_contains(lt.as_str(), lowered) {
                    assert(tv[i as int] == Some(t@));
                    return true;
                }
            },
            None => {},
        }
    }
    false
}

/// The entries of the documents that carry exactly `tag`, in the documents' order.
pub fn filter_by_tag(objs: &Vec<DataObjectRecord>, tag: &str) -> (r: Vec<MetadataForTemplate>)
    ensures
        lists_all(r@, kept(objs@, tag_flags(objs@, tag@))),
{
    let mut flags: Vec<bool> = Vec::new();
    let n = objs.len();
    for i in 0..n
        invariant
            n == objs.len(),
            flags@ =~= tag_flags(objs@, tag@).take(i as int),
    {
        flags.push(carries_tag(&objs[i], tag));
    }
    assert(flags@ =~= tag_flags(objs@, tag@));
    entries_for(objs, &flags)
}

/// The entries of the documents with a tag that contains `pattern`, case
/// ignored, in the documents' order. An ASCII pattern is taken with its capital
/// letters made small.
pub fn search_by_pattern(objs: &Vec<DataObjectRecord>, pattern: &str) -> (r: Vec<
    MetadataForTemplate,
>)
    ensures
        lists_all(r@, kept(objs@, pattern_flags(objs@, pattern@))),
        all_ascii(pattern@) ==> lists_all(r@, kept(objs@, lowered_flags(objs@, ascii_lower(pattern@)))),
{
    let lowered = to_lowercase(pattern);
    assert(pattern_flags(objs@, pattern@) =~= lowered_flags(objs@, lowercase(pattern@)));
    let mut flags: Vec<bool> = Vec::new();
    let n = objs.len();
    for i in 0..n
        invariant
            n == objs.len(),
            lowered@ == lowercase(pattern@),
            flags@ =~= pattern_flags(objs@, pattern@).take(i as int),
    {
        flags.push(tags_contain(&objs[i], lowered.as_str(), Ghost(pattern@)));
    }
    assert(flags@ =~= pattern_flags(objs@, pattern@));
    entries_for(objs, &flags)
}

/// The entries of the documents of `domain`, in the documents' order.
pub fn filter_by_domain(objs: &Vec<DataObjectRecord>, domain: &str) -> (r: Vec<
    MetadataForTemplate,
>)
    ensures
        lists_all(r@, kept(objs@, domain_flags(objs@, domain@))),
{
    let mut flags: Vec<bool> = Vec::new();
    let n = objs.len();
    for i in 0..n
        invariant
            n == objs.len(),
            flags@ =~= domain_flags(objs@, domain@).take(i as int),
    {
        flags.push(str_eq(objs[i].metadata.domain.as_str(), domain));
    }
    assert(flags@ =~= domain_flags(objs@, domain@));
    entries_for(objs, &flags)
}

proof fn lemma_tag_implies_pattern(o: DataObjectRecord, tag: Seq<char>)
    requires
        has_tag(o, tag),
    ensures
        matches_pattern(o, tag),
{
    let i = choose|i: int|
        0 <= i < o.metadata.tags.deep_view().len() && o.metadata.tags.deep_view()[i] == Some(tag);
    let l = lowercase(tag);
    assert(l.subrange(0, l.len() as int) =~= l);
    assert(occurs_at(l, l, 0));
}

proof fn lemma_kept_within(objs: Seq<DataObjectRecord>, f: Seq<bool>, g: Seq<bool>)
    requires
        f.len() == objs.len(),
        g.len() == objs.len(),
        forall|i: int| 0 <= i < objs.len() && #[trigger] f[i] ==> g[i],
    ensures
        forall|i: int| 0 <= i < kept(objs, f).len() ==> kept(objs, g).contains(#[trigger] kept(objs, f)[i]),
    decreases objs.len(),
{
    if objs.len() > 0 {
        let d = objs.drop_last();
        let fd = f.take(d.len() as int);
        let gd = g.take(d.len() as int);
        lemma_kept_prefix_flags(d, f, fd);
        lemma_kept_prefix_flags(d, g, gd);
        lemma_kept_within(d, fd, gd);
        let kf = kept(objs, f);
        let kg = kept(objs, g);
        assert forall|i: int| 0 <= i < kf.len() implies kg.contains(#[trigger] kf[i]) by {
            if i < kept(d, f).len() {
                let j = choose|j: int| 0 <= j < kept(d, g).len() && kept(d, g)[j] == kf[i];
                assert(kg[j] == kept(d, g)[j]);
            } else {
                assert(kf[i] == objs.last());
                assert(f[objs.len() - 1]);
                assert(kg[kg.len() - 1] == objs.last());
            }
        }
    }
}

proof fn lemma_kept_prefix_flags(objs: Seq<DataObjectRecord>, f: Seq<bool>, g: Seq<bool>)
    requires
        g.len() >= objs.len(),
        f.len() >= objs.len(),
        forall|i: int| 0 <= i < objs.len() ==> f[i] == g[i],
    ensures
        kept(objs, f) == kept(objs, g),
    decreases objs.len(),
{
    if objs.len() > 0 {
        lemma_kept_prefix_flags(objs.drop_last(), f, g);
    }
}

/// Every document listed for an exact tag is also listed when that tag is
/// searched for as a pattern.
pub proof fn law_tag_listing_within_search(objs: Seq<DataObjectRecord>, tag: Seq<char>)
    ensures
        forall|i: int|
            0 <= i < kept(objs, tag_flags(objs, tag)).len() ==> kept(
                objs,
                pattern_flags(objs, tag),
            ).contains(#[trigger] kept(objs, tag_flags(objs, tag))[i]),
{
    let f = tag_flags(objs, tag);
    let g = pattern_flags(objs, tag);
    assert forall|i: int| 0 <= i < objs.len() && #[trigger] f[i] implies g[i] by {
        lemma_tag_implies_pattern(objs[i], tag);
    }
    lemma_kept_within(objs, f, g);
}

/// The case of an ASCII search pattern does not matter: the pattern and its
/// upper-cased form are both ASCII, lower-case to the same text, and so select
/// the same documents.
pub proof fn law_pattern_case_does_not_matter(objs: Seq<DataObjectRecord>, t: Seq<char>)
    requires
        all_ascii(t),
    ensures
        all_ascii(ascii_upper(t)),
        kept(objs, lowered_flags(objs, ascii_lower(ascii_upper(t)))) == kept(
            objs,
            lowered_flags(objs, ascii_lower(t)),
        ),
{
    lemma_ascii_case_round(t);
}

proof fn lemma_kept_has(objs: Seq<DataObjectRecord>, flags: Seq<bool>, j: int)
    requires
        flags.len() >= objs.len(),
        0 <= j < objs.len(),
        flags[j],
    ensures
        kept(objs, flags).contains(objs[j]),
    decreases objs.len(),
{
    let k = kept(objs, flags);
    if j == objs.len() - 1 {
        assert(k[k.len() - 1] == objs[j]);
    } else {
        let d = objs.drop_last();
        lemma_kept_has(d, flags, j);
        let r = kept(d, flags);
        let m = choose|m: int| 0 <= m < r.len() && r[m] == d[j];
        assert(k[m] == r[m]);
    }
}

proof fn lemma_kept_member(objs: Seq<DataObjectRecord>, flags: Seq<bool>, k: int) -> (j: int)
    requires
        flags.len() >= objs.len(),
        0 <= k < kept(objs, flags).len(),
    ensures
        0 <= j < objs.len(),
        flags[j],
        kept(objs, flags)[k] == objs[j],
    decreases objs.len(),
{
    let d = objs.drop_last();
    let r = kept(d, flags);
    if k < r.len() {
        let j = lemma_kept_member(d, flags, k);
        assert(d[j] == objs[j]);
        j
    } else {
        (objs.len() - 1) as int
    }
}

/// The exact-tag listing lists every document that carries the tag, whichever
/// of its tags it is.
pub proof fn law_tag_listing_has_every_carrier(
    objs: Seq<DataObjectRecord>,
    tag: Seq<char>,
    j: int,
    i: int,
)
    requires
        0 <= j < objs.len(),
        0 <= i < objs[j].metadata.tags.deep_view().len(),
        objs[j].metadata.tags.deep_view()[i] == Some(tag),
    ensures
        kept(objs, tag_flags(objs, tag)).contains(objs[j]),
{
    assert(has_tag(objs[j], tag));
    lemma_kept_has(objs, tag_flags(objs, tag), j);
}

/// Every document the exact-tag listing lists carries the tag.
pub proof fn law_tag_listing_has_only_carriers(objs: Seq<DataObjectRecord>, tag: Seq<char>, k: int)
    requires
        0 <= k < kept(objs, tag_flags(objs, tag)).len(),
    ensures
        exists|i: int|
            0 <= i < kept(objs, tag_flags(objs, tag))[k].metadata.tags.deep_view().len()
                && kept(objs, tag_flags(objs, tag))[k].metadata.tags.deep_view()[i] == Some(tag),
{
    let f = tag_flags(objs, tag);
    let j = lemma_kept_member(objs, f, k);
    assert(has_tag(objs[j], tag));
}

/// The pattern search lists every document with a tag `t` whose lower-case
/// form holds the lower-cased pattern anywhere: `x`, then the pattern, then `y`.
pub proof fn law_pattern_search_has_every_match(
    objs: Seq<DataObjectRecord>,
    pattern: Seq<char>,
    j: int,
    i: int,
    t: Seq<char>,
    x: Seq<char>,
    y: Seq<char>,
)
    requires
        0 <= j < objs.len(),
        0 <= i < objs[j].metadata.tags.deep_view().len(),
        objs[j].metadata.tags.deep_view()[i] == Some(t),
        lowercase(t) == x + lowercase(pattern) + y,
    ensures
        kept(objs, pattern_flags(objs, pattern)).contains(objs[j]),
{
    let l = lowercase(t);
    let p = lowercase(pattern);
    assert(l.subrange(x.len() as int, (x.len() + p.len()) as int) =~= p);
    assert(occurs_at(l, p, x.len() as int));
    assert(contains(l, p));
    assert(objs[j].metadata.tags.deep_view()[i] matches Some(u) && contains(lowercase(u), p));
    assert(matches_pattern(objs[j], pattern));
    lemma_kept_has(objs, pattern_flags(objs, pattern), j);
}

/// Every document the pattern search lists has a tag `t` whose lower-case form
/// is some `x`, then the lower-cased pattern, then some `y`.
pub proof fn law_pattern_search_has_only_matches(objs: Seq<DataObjectRecord>, pattern: Seq<char>, k: int)
    requires
        0 <= k < kept(objs, pattern_flags(objs, pattern)).len(),
    ensures
        exists|i: int, t: Seq<char>, x: Seq<char>, y: Seq<char>|
            0 <= i < kept(objs, pattern_flags(objs, pattern))[k].metadata.tags.deep_view().len()
                && kept(objs, pattern_flags(objs, pattern))[k].metadata.tags.deep_view()[i]
                == Some(t) && lowercase(t) == x + lowercase(pattern) + y,
{
    let f = pattern_flags(objs, pattern);
    let j = lemma_kept_member(objs, f, k);
    let o = objs[j];
    assert(matches_pattern(o, pattern));
    let p = lowercase(pattern);
    let tv = o.metadata.tags.deep_view();
    let i = choose|i: int| 0 <= i < tv.len() && (#[trigger] tv[i] matches Some(u) && contains(lowercase(u), p));
    let t = tv[i]->0;
    let l = lowercase(t);
    let at = choose|at: int| occurs_at(l, p, at);
    let x = l.subrange(0, at);
    let y = l.subrange(at + p.len(), l.len() as int);
    assert(l =~= x + p + y);
}

/// The domain listing lists exactly the documents of the domain: each one
/// whose domain is `domain`, and no other.
pub proof fn law_domain_listing(objs: Seq<DataObjectRecord>, domain: Seq<char>)
    ensures
        forall|j: int|
            0 <= j < objs.len() && #[trigger] objs[j].metadata.domain@ == domain ==> kept(
                objs,
                domain_flags(objs, domain),
            ).contains(objs[j]),
        forall|k: int|
            0 <= k < kept(objs, domain_flags(objs, domain)).len() ==> (#[trigger] kept(
                objs,
                domain_flags(objs, domain),
            )[k]).metadata.domain@ == domain,
{
    let f = domain_flags(objs, domain);
    assert forall|j: int|
        0 <= j < objs.len() && #[trigger] objs[j].metadata.domain@ == domain implies kept(
            objs,
            f,
        ).contains(objs[j]) by {
        lemma_kept_has(objs, f, j);
    }
    assert forall|k: int| 0 <= k < kept(objs, f).len() implies (#[trigger] kept(
        objs,
        f,
    )[k]).metadata.domain@ == domain by {
        let j = lemma_kept_member(objs, f, k);
    }
}

} // verus!
