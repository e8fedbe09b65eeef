//! Update discovery across the catalog.
//!
//! For each installed product still present in the catalog, the planner
//! compares the installed version label against every catalog version for
//! the installed platform, under a total lexicographic ordering of the
//! labels' bytes (a version label is an opaque comparable string, not
//! necessarily structured). Products with a strictly newer version are
//! reported with the maximal such version; products installed but absent
//! from the catalog are silently skipped.

use vstd::prelude::*;

use crate::verify::bytes_eq;

verus! {

/// Strict lexicographic order on byte strings: a proper prefix precedes,
/// otherwise the first differing byte decides.
pub open spec fn lex_lt(a: Seq<u8>, b: Seq<u8>) -> bool
    decreases a.len() + b.len(),
{
    if b.len() == 0 {
        false
    } else if a.len() == 0 {
        true
    } else if a[0] < b[0] {
        true
    } else if a[0] > b[0] {
        false
    } else {
        lex_lt(a.drop_first(), b.drop_first())
    }
}

/// The order is total: two distinct labels always compare.
pub proof fn lemma_lex_total(a: Seq<u8>, b: Seq<u8>)
    requires
        a != b,
    ensures
        lex_lt(a, b) || lex_lt(b, a),
    decreases a.len() + b.len(),
{
    if a.len() == 0 {
        if b.len() == 0 {
            assert(a =~= b);
        }
    } else if b.len() == 0 {
    } else if a[0] == b[0] {
        assert(a.drop_first() != b.drop_first()) by {
            assert(a.drop_first().len() == a.len() - 1);
            assert(b.drop_first().len() == b.len() - 1);
            if a.drop_first() == b.drop_first() {
                assert(a.len() == b.len());
                assert(a =~= b) by {
                    assert forall|i: int| 0 <= i < a.len() implies a[i] == b[i] by {
                        if i > 0 {
                            assert(a.drop_first()[i - 1] == a[i]);
                            assert(b.drop_first()[i - 1] == b[i]);
                        }
                    }
                }
            }
        }
        lemma_lex_total(a.drop_first(), b.drop_first());
    }
}

/// The order is transitive.
pub proof fn lemma_lex_trans(a: Seq<u8>, b: Seq<u8>, c: Seq<u8>)
    requires
        lex_lt(a, b),
        lex_lt(b, c),
    ensures
        lex_lt(a, c),
    decreases a.len() + b.len() + c.len(),
{
    if a.len() > 0 && b.len() > 0 && c.len() > 0 && a[0] == b[0] && b[0] == c[0] {
        lemma_lex_trans(a.drop_first(), b.drop_first(), c.drop_first());
    }
}

/// The order is irreflexive.
pub proof fn lemma_lex_irrefl(a: Seq<u8>)
    ensures
        !lex_lt(a, a),
    decreases a.len(),
{
    if a.len() > 0 {
        lemma_lex_irrefl(a.drop_first());
    }
}

/// Whether `a` precedes `b` in the version ordering.
#[verifier::loop_isolation(false)]
pub fn version_lt(a: &[u8], b: &[u8]) -> (r: bool)
    ensures
        r == lex_lt(a@, b@),
{
    let mut i: usize = 0;
    assert(a@.skip(0) =~= a@);
    assert(b@.skip(0) =~= b@);
    while i < a.len() && i < b.len()
        invariant
            i <= a.len(),
            i <= b.len(),
            lex_lt(a@, b@) == lex_lt(a@.skip(i as int), b@.skip(i as int)),
        decreases a.len() - i,
    {
        let ghost ra = a@.skip(i as int);
        let ghost rb = b@.skip(i as int);
        assert(ra[0] == a@[i as int]);
        assert(rb[0] == b@[i as int]);
        assert(ra.drop_first() =~= a@.skip(i as int + 1));
        assert(rb.drop_first() =~= b@.skip(i as int + 1));
        if a[i] < b[i] {
            return true;
        }
        if a[i] > b[i] {
            return false;
        }
        i += 1;
    }
    a.len() < b.len()
}

/// One available build of a product.
#[derive(Clone, Debug)]
pub struct VersionEntry {
    /// The version label.
    pub version: Vec<u8>,
    /// The platform this build targets.
    pub platform: Vec<u8>,
}

/// One product of the synced catalog.
#[derive(Clone, Debug)]
pub struct CatalogProduct {
    /// The product's stable identifier.
    pub slug: Vec<u8>,
    /// The product's available builds.
    pub versions: Vec<VersionEntry>,
}

/// One installed product, as the installed-state store records it.
#[derive(Clone, Debug)]
pub struct InstalledEntry {
    /// The product's stable identifier.
    pub slug: Vec<u8>,
    /// The installed version label.
    pub version: Vec<u8>,
    /// The installed build's platform.
    pub platform: Vec<u8>,
}

/// One reported upgrade.
#[derive(Clone, Debug)]
pub struct UpdateNotice {
    /// The product's stable identifier.
    pub slug: Vec<u8>,
    /// The maximal catalog version for the installed platform.
    pub latest: Vec<u8>,
}

/// The maximal version label among the builds for `platform`, if any:
/// later entries win ties.
pub open spec fn best_version(vs: Seq<VersionEntry>, platform: Seq<u8>) -> Option<Seq<u8>>
    decreases vs.len(),
{
    if vs.len() == 0 {
        None
    } else {
        let prev = best_version(vs.drop_last(), platform);
        if vs.last().platform@ != platform {
            prev
        } else {
            match prev {
                None => Some(vs.last().version@),
                Some(v) => if lex_lt(v, vs.last().version@) {
                    Some(vs.last().version@)
                } else {
                    Some(v)
                },
            }
        }
    }
}

/// The best version is itself offered for the platform.
pub proof fn lemma_best_version_offered(vs: Seq<VersionEntry>, platform: Seq<u8>)
    ensures
        best_version(vs, platform) matches Some(v) ==> exists|i: int|
            0 <= i < vs.len() && (#[trigger] vs[i]).platform@ == platform
                && vs[i].version@ == v,
    decreases vs.len(),
{
    if vs.len() > 0 {
        lemma_best_version_offered(vs.drop_last(), platform);
        match best_version(vs, platform) {
            Some(v) => {
                if vs.last().platform@ == platform && v == vs.last().version@ {
                    assert(vs[vs.len() - 1].platform@ == platform);
                } else {
                    let i = choose|i: int|
                        0 <= i < vs.len() - 1
                            && (#[trigger] vs.drop_last()[i]).platform@ == platform
                            && vs.drop_last()[i].version@ == v;
                    assert(vs[i].platform@ == platform && vs[i].version@ == v);
                }
            },
            None => {},
        }
    }
}

/// Nothing offered for the platform exceeds the best version: it is the
/// maximum under the ordering.
pub proof fn lemma_best_version_maximal(vs: Seq<VersionEntry>, platform: Seq<u8>)
    ensures
        best_version(vs, platform) matches Some(v) ==> forall|i: int|
            0 <= i < vs.len() && (#[trigger] vs[i]).platform@ == platform
                ==> !lex_lt(v, vs[i].version@),
        best_version(vs, platform) is None ==> forall|i: int|
            0 <= i < vs.len() ==> (#[trigger] vs[i]).platform@ != platform,
    decreases vs.len(),
{
    if vs.len() > 0 {
        lemma_best_version_maximal(vs.drop_last(), platform);
        match best_version(vs, platform) {
            Some(v) => {
                assert forall|i: int|
                    0 <= i < vs.len() && (#[trigger] vs[i]).platform@ == platform
                    implies !lex_lt(v, vs[i].version@) by {
                    if i < vs.len() - 1 {
                        assert(vs.drop_last()[i] == vs[i]);
                        match best_version(vs.drop_last(), platform) {
                            Some(pv) => {
                                if v != pv && lex_lt(v, vs[i].version@) {
                                    assert(lex_lt(pv, v));
                                    lemma_lex_trans(pv, v, vs[i].version@);
                                }
                            },
                            None => {},
                        }
                    } else {
                        if v == vs.last().version@ {
                            lemma_lex_irrefl(v);
                        }
                    }
                }
            },
            None => {
                assert(vs.last().platform@ != platform);
                assert forall|i: int| 0 <= i < vs.len()
                    implies (#[trigger] vs[i]).platform@ != platform by {
                    if i < vs.len() - 1 {
                        assert(vs.drop_last()[i] == vs[i]);
                    }
                }
            },
        }
    }
}

/// Find the first catalog product with this slug.
pub open spec fn find_product(catalog: Seq<CatalogProduct>, slug: Seq<u8>) -> Option<int>
    decreases catalog.len(),
{
    if catalog.len() == 0 {
        None
    } else if catalog[0].slug@ == slug {
        Some(0)
    } else {
        match find_product(catalog.drop_first(), slug) {
            Some(j) => Some(j + 1),
            None => None,
        }
    }
}

/// Whether an installed product has an upgrade in the catalog: its product
/// is present, some build matches its platform, and the best such build's
/// label strictly exceeds the installed one.
pub open spec fn upgrade_for(catalog: Seq<CatalogProduct>, e: InstalledEntry) -> Option<Seq<u8>> {
    match find_product(catalog, e.slug@) {
        None => None,
        Some(j) => match best_version(catalog[j].versions@, e.platform@) {
            None => None,
            Some(v) => if lex_lt(e.version@, v) {
                Some(v)
            } else {
                None
            },
        },
    }
}

/// Find the first product with the given slug, as `find_product` describes.
#[verifier::loop_isolation(false)]
fn lookup_product<'a>(catalog: &'a Vec<CatalogProduct>, slug: &[u8]) -> (r: Option<&'a CatalogProduct>)
    ensures
        r matches Some(p) ==> (find_product(catalog@, slug@) matches Some(j) && *p == catalog@[j]),
        r is None ==> find_product(catalog@, slug@) is None,
{
    let mut j: usize = 0;
    while j < catalog.len()
        invariant
            j <= catalog.len(),
            forall|k: int| 0 <= k < j ==> (#[trigger] catalog@[k]).slug@ != slug@,
        decreases catalog.len() - j,
    {
        if bytes_eq(catalog[j].slug.as_slice(), slug) {
            proof {
                lemma_find_product_hits(catalog@, slug@, j as int);
            }
            return Some(&catalog[j]);
        }
        j += 1;
    }
    proof {
        lemma_find_product_misses(catalog@, slug@);
    }
    None
}

/// If `catalog[i]` has the slug and no earlier product does, the lookup
/// finds `i`.
proof fn lemma_find_product_hits(catalog: Seq<CatalogProduct>, slug: Seq<u8>, i: int)
    requires
        0 <= i < catalog.len(),
        catalog[i].slug@ == slug,
        forall|k: int| 0 <= k < i ==> (#[trigger] catalog[k]).slug@ != slug,
    ensures
        find_product(catalog, slug) == Some(i),
    decreases i,
{
    if i > 0 {
        lemma_find_product_hits(catalog.drop_first(), slug, i - 1);
    }
}

/// If no product has the slug, the lookup finds nothing.
proof fn lemma_find_product_misses(catalog: Seq<CatalogProduct>, slug: Seq<u8>)
    requires
        forall|k: int| 0 <= k < catalog.len() ==> (#[trigger] catalog[k]).slug@ != slug,
    ensures
        find_product(catalog, slug) is None,
    decreases catalog.len(),
{
    if catalog.len() > 0 {
        lemma_find_product_misses(catalog.drop_first(), slug);
    }
}

/// The best catalog version for this platform, as `best_version` describes.
#[verifier::loop_isolation(false)]
fn best_version_for(versions: &Vec<VersionEntry>, platform: &[u8]) -> (r: Option<Vec<u8>>)
    ensures
        (r matches Some(v) ==> best_version(versions@, platform@) == Some(v@)),
        (r is None ==> best_version(versions@, platform@) is None),
{
    let mut best: Option<Vec<u8>> = None;
    let mut i: usize = 0;
    assert(versions@.take(0) =~= Seq::<VersionEntry>::empty());
    while i < versions.len()
        invariant
            i <= versions.len(),
            (best matches Some(v) ==> best_version(versions@.take(i as int), platform@)
                == Some(v@)),
            (best is None ==> best_version(versions@.take(i as int), platform@) is None),
        decreases versions.len() - i,
    {
        proof {
            assert(versions@.take(i as int + 1).drop_last() =~= versions@.take(i as int));
            assert(versions@.take(i as int + 1).last() == versions@[i as int]);
        }
        if bytes_eq(versions[i].platform.as_slice(), platform) {
            match &best {
                None => {
                    best = Some(versions[i].version.clone());
                },
                Some(b) => {
                    if version_lt(b.as_slice(), versions[i].version.as_slice()) {
                        best = Some(versions[i].version.clone());
                    }
                },
            }
        }
        i += 1;
    }
    assert(versions@.take(versions.len() as int) =~= versions@);
    best
}

/// The notices owed for the installed products, in installed order: one
/// `(slug, latest)` pair for each product the catalog offers a strictly
/// newer version of, and nothing for any other.
pub open spec fn updates_spec(
    catalog: Seq<CatalogProduct>,
    installed: Seq<InstalledEntry>,
) -> Seq<(Seq<u8>, Seq<u8>)>
    decreases installed.len(),
{
    if installed.len() == 0 {
        Seq::empty()
    } else {
        let prev = updates_spec(catalog, installed.drop_last());
        match upgrade_for(catalog, installed.last()) {
            Some(v) => prev.push((installed.last().slug@, v)),
            None => prev,
        }
    }
}

/// Report every installed product with a strictly newer catalog version:
/// one notice per such product, in installed order, carrying the maximal
/// version for its platform, exactly as `updates_spec` describes.
/// Installed products the catalog does not name, and products already at
/// their maximum, yield nothing.
#[verifier::loop_isolation(false)]
pub fn check_updates(catalog: &Vec<CatalogProduct>, installed: &Vec<InstalledEntry>) -> (r: Vec<
    UpdateNotice,
>)
    ensures
        r@.map_values(|n: UpdateNotice| (n.slug@, n.latest@))
            == updates_spec(catalog@, installed@),
{
    let mut out: Vec<UpdateNotice> = Vec::new();
    let mut i: usize = 0;
    assert(installed@.take(0) =~= Seq::<InstalledEntry>::empty());
    assert(out@.map_values(|n: UpdateNotice| (n.slug@, n.latest@))
        =~= Seq::<(Seq<u8>, Seq<u8>)>::empty());
    while i < installed.len()
        invariant
            i <= installed.len(),
            out@.map_values(|n: UpdateNotice| (n.slug@, n.latest@))
                == updates_spec(catalog@, installed@.take(i as int)),
        decreases installed.len() - i,
    {
        let ghost old_models = out@.map_values(|n: UpdateNotice| (n.slug@, n.latest@));
        proof {
            assert(installed@.take(i as int + 1).drop_last() =~= installed@.take(i as int));
            assert(installed@.take(i as int + 1).last() == installed@[i as int]);
        }
        let entry = &installed[i];
        match lookup_product(catalog, entry.slug.as_slice()) {
            None => {},
            Some(product) => {
                match best_version_for(&product.versions, entry.platform.as_slice()) {
                    None => {},
                    Some(latest) => {
                        if version_lt(entry.version.as_slice(), latest.as_slice()) {
                            let slug = entry.slug.clone();
                            out.push(UpdateNotice { slug, latest });
                            assert(out@.map_values(|n: UpdateNotice| (n.slug@, n.latest@))
                                =~= old_models.push(
                                (installed@[i as int].slug@, out@.last().latest@),
                            ));
                        } else {
                            assert(upgrade_for(catalog@, installed@[i as int]) is None);
                        }
                    },
                }
            },
        }
        i += 1;
    }
    assert(installed@.take(installed@.len() as int) =~= installed@);
    out
}

} // verus!
