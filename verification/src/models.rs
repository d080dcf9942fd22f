//! The model catalog: version listings per model kind, and selection of
//! the best model — highest accuracy first (held in micro-units), ties
//! broken by descending version, byte-lexicographically as version strings
//! order.

use vstd::prelude::*;
use vstd::utf8::encode_utf8;

verus! {

/// One model kind and its available version names, sorted ascending.
#[derive(Clone, Debug)]
pub struct ModelCatalogEntry {
    pub kind: String,
    pub versions: Vec<String>,
}

/// Declared input tensor of a model; normalization constants in
/// milli-units.
#[derive(Clone, Debug)]
pub struct InputSpec {
    pub name: String,
    pub shape: Vec<i64>,
    pub layout: String,
    pub mean_milli: Option<Vec<i32>>,
    pub std_milli: Option<Vec<i32>>,
}

/// The metadata record stored beside each model file; accuracy in
/// micro-units when reported.
#[derive(Clone, Debug)]
pub struct ModelMetadata {
    pub name: String,
    pub version: String,
    pub url: String,
    pub sha256: String,
    pub inputs: Vec<InputSpec>,
    pub license: String,
    pub accuracy_micro: Option<u64>,
}

/// One discovered model version: its directory name, metadata, and the
/// model file path.
#[derive(Clone, Debug)]
pub struct ModelCandidate {
    pub version: String,
    pub metadata: ModelMetadata,
    pub path: String,
}

/// The model chosen for a kind.
#[derive(Clone, Debug)]
pub struct ModelSelection {
    pub kind: String,
    pub version: String,
    pub path: String,
    pub metadata: ModelMetadata,
}

/// The chosen models of both kinds.
#[derive(Clone, Debug)]
pub struct SelectedCatalog {
    pub face_detection: Option<ModelSelection>,
    pub liveness: Option<ModelSelection>,
}

/// Byte-lexicographic order on strings, the order `String` comparison
/// uses: a proper prefix comes first.
pub open spec fn lex_le(a: Seq<u8>, b: Seq<u8>) -> bool
    decreases a.len(),
{
    if a.len() == 0 {
        true
    } else if b.len() == 0 {
        false
    } else if a[0] < b[0] {
        true
    } else if a[0] > b[0] {
        false
    } else {
        lex_le(a.drop_first(), b.drop_first())
    }
}

/// The UTF-8 bytes of a string, which carry its lexicographic order.
pub open spec fn str_bytes(s: String) -> Seq<u8> {
    encode_utf8(s@)
}

/// The order is total.
pub proof fn lemma_lex_total(a: Seq<u8>, b: Seq<u8>)
    ensures
        lex_le(a, b) || lex_le(b, a),
    decreases a.len(),
{
    if a.len() > 0 && b.len() > 0 && a[0] == b[0] {
        lemma_lex_total(a.drop_first(), b.drop_first());
    }
}

/// The order is reflexive.
pub proof fn lemma_lex_refl(a: Seq<u8>)
    ensures
        lex_le(a, a),
    decreases a.len(),
{
    if a.len() > 0 {
        lemma_lex_refl(a.drop_first());
    }
}

/// The order is transitive.
pub proof fn lemma_lex_trans(a: Seq<u8>, b: Seq<u8>, c: Seq<u8>)
    requires
        lex_le(a, b),
        lex_le(b, c),
    ensures
        lex_le(a, c),
    decreases a.len(),
{
    if a.len() > 0 && b.len() > 0 && c.len() > 0 && a[0] == b[0] && b[0] == c[0] {
        lemma_lex_trans(a.drop_first(), b.drop_first(), c.drop_first());
    }
}

/// Compare two strings in the byte-lexicographic order.
fn str_le(a: &str, b: &str) -> (r: bool)
    ensures
        r == lex_le(encode_utf8(a@), encode_utf8(b@)),
{
    let ab = a.as_bytes();
    let bb = b.as_bytes();
    proof {
        assert(ab@.skip(0) =~= ab@);
        assert(bb@.skip(0) =~= bb@);
    }
    let mut i: usize = 0;
    loop
        invariant
            ab@ == encode_utf8(a@),
            bb@ == encode_utf8(b@),
            0 <= i <= ab@.len(),
            i <= bb@.len(),
            forall|j: int| 0 <= j < i ==> ab@[j] == bb@[j],
            lex_le(ab@.skip(i as int), bb@.skip(i as int)) == lex_le(ab@, bb@),
        decreases ab@.len() - i,
    {
        if i == ab.len() {
            return true;
        }
        if i == bb.len() {
            return false;
        }
        let x = ab[i];
        let y = bb[i];
        proof {
            assert(ab@.skip(i as int)[0] == ab@[i as int]);
            assert(bb@.skip(i as int)[0] == bb@[i as int]);
            assert(ab@.skip(i as int).drop_first() =~= ab@.skip(i as int + 1));
            assert(bb@.skip(i as int).drop_first() =~= bb@.skip(i as int + 1));
        }
        if x < y {
            return true;
        }
        if x > y {
            return false;
        }
        i = i + 1;
    }
}

/// The names flagged as holding metadata, among the first `n` listed
/// directories.
pub open spec fn kept_names(l: Seq<(String, bool)>, n: int) -> Seq<String>
    decreases n,
{
    if n <= 0 {
        Seq::empty()
    } else if l[n - 1].1 {
        kept_names(l, n - 1).push(l[n - 1].0)
    } else {
        kept_names(l, n - 1)
    }
}

/// Whether a sequence of strings is sorted ascending in the
/// byte-lexicographic order.
pub open spec fn versions_sorted(v: Seq<String>) -> bool {
    forall|i: int, j: int|
        0 <= i <= j < v.len() ==> lex_le(str_bytes(v[i]), str_bytes(v[j]))
}

/// Index of the lexicographically least string.
fn min_version_index(v: &Vec<String>) -> (m: usize)
    requires
        v@.len() > 0,
    ensures
        m < v@.len(),
        forall|j: int| 0 <= j < v@.len() ==> lex_le(str_bytes(v@[m as int]), str_bytes(#[trigger] v@[j])),
{
    let mut m: usize = 0;
    proof {
        lemma_lex_refl(str_bytes(v@[0]));
    }
    let mut i: usize = 1;
    while i < v.len()
        invariant
            0 <= m < v@.len(),
            1 <= i <= v@.len(),
            forall|j: int|
                0 <= j < i ==> lex_le(str_bytes(v@[m as int]), str_bytes(#[trigger] v@[j])),
        decreases v@.len() - i,
    {
        let ghost m0 = m as int;
        if str_le(v[i].as_str(), v[m].as_str()) {
            m = i;
            proof {
                assert forall|j: int| 0 <= j < i + 1 implies lex_le(
                    str_bytes(v@[m as int]),
                    str_bytes(#[trigger] v@[j]),
                ) by {
                    if j < i {
                        lemma_lex_trans(str_bytes(v@[m as int]), str_bytes(v@[m0]), str_bytes(v@[j]));
                    } else {
                        lemma_lex_refl(str_bytes(v@[j]));
                    }
                };
            }
        } else {
            proof {
                lemma_lex_total(str_bytes(v@[i as int]), str_bytes(v@[m as int]));
            }
        }
        i = i + 1;
    }
    m
}

/// Sort version names ascending in the byte-lexicographic order, keeping
/// exactly the same names.
pub fn sort_versions(items: Vec<String>) -> (r: Vec<String>)
    ensures
        versions_sorted(r@),
        r@.to_multiset() == items@.to_multiset(),
{
    broadcast use vstd::seq_lib::group_to_multiset_ensures;
    broadcast use vstd::multiset::group_multiset_axioms;

    let mut work = items;
    let ghost input = work@;
    let mut out: Vec<String> = Vec::new();
    while work.len() > 0
        invariant
            versions_sorted(out@),
            forall|i: int, j: int|
                0 <= i < out@.len() && 0 <= j < work@.len() ==> lex_le(
                    str_bytes(out@[i]),
                    str_bytes(work@[j]),
                ),
            out@.to_multiset().add(work@.to_multiset()) == input.to_multiset(),
        decreases work@.len(),
    {
        let m = min_version_index(&work);
        let ghost old_work = work@;
        let ghost old_out = out@;
        let cand = work.remove(m);
        out.push(cand);
        proof {
            assert(old_work.contains(old_work[m as int]));
            vstd::seq_lib::to_multiset_remove(old_work, m as int);
            vstd::seq_lib::to_multiset_build(old_out, cand);
            vstd::seq_lib::to_multiset_contains(old_work, cand);
            assert(old_work.to_multiset().count(cand) > 0);
            assert forall|x: String|
                out@.to_multiset().add(work@.to_multiset()).count(x) == input.to_multiset().count(
                    x,
                ) by {
                assert(out@.to_multiset().count(x) == old_out.to_multiset().insert(cand).count(x));
                assert(work@.to_multiset().count(x) == old_work.to_multiset().remove(cand).count(
                    x,
                ));
            };
            assert(out@.to_multiset().add(work@.to_multiset()) =~= input.to_multiset());
            assert forall|i: int, j: int|
                0 <= i < out@.len() && 0 <= j < work@.len() implies lex_le(
                str_bytes(out@[i]),
                str_bytes(work@[j]),
            ) by {
                if j < m {
                    assert(work@[j] == old_work[j]);
                } else {
                    assert(work@[j] == old_work[j + 1]);
                }
                if i < out@.len() - 1 {
                    assert(out@[i] == old_out[i]);
                } else {
                    assert(out@[i] == cand);
                }
            };
            assert forall|i: int, j: int| 0 <= i <= j < out@.len() implies lex_le(
                str_bytes(out@[i]),
                str_bytes(out@[j]),
            ) by {
                if j < out@.len() - 1 {
                    assert(out@[i] == old_out[i] && out@[j] == old_out[j]);
                } else if i < j {
                    assert(out@[i] == old_out[i] && out@[j] == cand);
                    assert(lex_le(str_bytes(old_out[i]), str_bytes(old_work[m as int])));
                } else {
                    lemma_lex_total(str_bytes(out@[i]), str_bytes(out@[i]));
                }
            };
        }
    }
    out
}

/// Assemble one catalog entry from a directory listing of `(name,
/// has_metadata)` pairs: keep the flagged names, sorted ascending.
pub fn catalog_entry(kind: String, listing: &Vec<(String, bool)>) -> (e: ModelCatalogEntry)
    ensures
        e.kind == kind,
        versions_sorted(e.versions@),
        e.versions@.to_multiset() == kept_names(listing@, listing@.len() as int).to_multiset(),
{
    let mut kept: Vec<String> = Vec::new();
    let mut i: usize = 0;
    while i < listing.len()
        invariant
            0 <= i <= listing@.len(),
            kept@ == kept_names(listing@, i as int),
        decreases listing@.len() - i,
    {
        if listing[i].1 {
            let name = listing[i].0.clone();
            proof {
                assert(name == listing@[i as int].0);
            }
            kept.push(name);
        }
        i = i + 1;
    }
    let versions = sort_versions(kept);
    ModelCatalogEntry { kind, versions }
}

/// The ranking accuracy of a candidate: its reported accuracy, with
/// unreported accuracy ranking below every reported one.
pub open spec fn acc_val(m: ModelMetadata) -> int {
    match m.accuracy_micro {
        Some(a) => a as int,
        None => -1,
    }
}

/// Strictly better: higher accuracy, or equal accuracy and a strictly
/// later version.
pub open spec fn cand_better(a: ModelCandidate, b: ModelCandidate) -> bool {
    ||| acc_val(a.metadata) > acc_val(b.metadata)
    ||| (acc_val(a.metadata) == acc_val(b.metadata) && !lex_le(
        str_bytes(a.version),
        str_bytes(b.version),
    ))
}

/// At least as good: higher accuracy, or equal accuracy and a version at
/// least as late.
pub open spec fn cand_at_least(a: ModelCandidate, b: ModelCandidate) -> bool {
    ||| acc_val(a.metadata) > acc_val(b.metadata)
    ||| (acc_val(a.metadata) == acc_val(b.metadata) && lex_le(
        str_bytes(b.version),
        str_bytes(a.version),
    ))
}

/// Whether a candidate is strictly better than another in the ranking.
fn better(a: &ModelCandidate, b: &ModelCandidate) -> (r: bool)
    ensures
        r == cand_better(*a, *b),
{
    let (aa, ab) = match a.metadata.accuracy_micro {
        Some(v) => (true, v),
        None => (false, 0),
    };
    let (ba, bb) = match b.metadata.accuracy_micro {
        Some(v) => (true, v),
        None => (false, 0),
    };
    if aa && !ba {
        return true;
    }
    if !aa && ba {
        return false;
    }
    if aa && ba && ab != bb {
        return ab > bb;
    }
    !str_le(a.version.as_str(), b.version.as_str())
}

/// The ranking is transitive.
proof fn lemma_at_least_trans(a: ModelCandidate, b: ModelCandidate, c: ModelCandidate)
    requires
        cand_at_least(a, b),
        cand_at_least(b, c),
    ensures
        cand_at_least(a, c),
{
    if acc_val(a.metadata) == acc_val(b.metadata) && acc_val(b.metadata) == acc_val(c.metadata) {
        lemma_lex_trans(str_bytes(c.version), str_bytes(b.version), str_bytes(a.version));
    }
}

/// Strictly better implies at least as good, and rules out the converse.
proof fn lemma_better_at_least(a: ModelCandidate, b: ModelCandidate)
    requires
        cand_better(a, b),
    ensures
        cand_at_least(a, b),
        !cand_at_least(b, a),
{
    if !(acc_val(a.metadata) > acc_val(b.metadata)) {
        lemma_lex_total(str_bytes(a.version), str_bytes(b.version));
    }
}

/// Pick the best candidate: highest accuracy, ties broken by descending
/// version; among order-equal candidates the first listed wins. Returns
/// nothing exactly when nothing was discovered. The selection's kind is
/// left empty for the caller to fill.
pub fn pick_best(items: Vec<ModelCandidate>) -> (r: Option<ModelSelection>)
    ensures
        r is None <==> items@.len() == 0,
        r matches Some(sel) ==> exists|i: int|
            0 <= i < items@.len() && sel.version == items@[i].version && sel.path
                == items@[i].path && sel.metadata == items@[i].metadata && sel.kind@ == Seq::<
                char,
            >::empty() && (forall|j: int|
                0 <= j < items@.len() ==> cand_at_least(items@[i], #[trigger] items@[j])) && (
            forall|j: int| 0 <= j < i ==> !cand_at_least(#[trigger] items@[j], items@[i])),
{
    if items.len() == 0 {
        return None;
    }
    let mut work = items;
    let mut best: usize = 0;
    proof {
        lemma_lex_refl(str_bytes(work@[0].version));
    }
    let mut i: usize = 1;
    while i < work.len()
        invariant
            work@ == items@,
            0 <= best < i <= items@.len(),
            forall|j: int|
                0 <= j < i ==> cand_at_least(items@[best as int], #[trigger] items@[j]),
            forall|j: int| 0 <= j < best ==> !cand_at_least(#[trigger] items@[j], items@[best as int]),
        decreases items@.len() - i,
    {
        let ghost b0 = best as int;
        if better(&work[i], &work[best]) {
            best = i;
            proof {
                lemma_better_at_least(items@[i as int], items@[b0]);
                assert forall|j: int| 0 <= j < i + 1 implies cand_at_least(
                    items@[best as int],
                    #[trigger] items@[j],
                ) by {
                    if j < i {
                        lemma_at_least_trans(items@[i as int], items@[b0], items@[j]);
                    } else {
                        lemma_lex_refl(str_bytes(items@[j].version));
                    }
                };
                assert forall|j: int| 0 <= j < best implies !cand_at_least(
                    #[trigger] items@[j],
                    items@[best as int],
                ) by {
                    if cand_at_least(items@[j], items@[i as int]) {
                        lemma_at_least_trans(items@[b0], items@[j], items@[i as int]);
                        lemma_better_at_least(items@[i as int], items@[b0]);
                    }
                };
            }
        } else {
            proof {
                lemma_lex_total(
                    str_bytes(items@[i as int].version),
                    str_bytes(items@[b0].version),
                );
            }
        }
        i = i + 1;
    }
    let chosen = work.remove(best);
    Some(
        ModelSelection {
            kind: String::new(),
            version: chosen.version,
            path: chosen.path,
            metadata: chosen.metadata,
        },
    )
}

/// Whether `sel` is the selection the ranking picks from `items`, labelled
/// `kind`: a discovered candidate at least as good as every other, the
/// first listed among its equals.
pub open spec fn selection_of(sel: ModelSelection, items: Seq<ModelCandidate>, kind: Seq<char>) -> bool {
    &&& sel.kind@ == kind
    &&& exists|i: int|
        0 <= i < items.len() && sel.version == items[i].version && sel.path == items[i].path
            && sel.metadata == items[i].metadata && (forall|j: int|
            0 <= j < items.len() ==> cand_at_least(items[i], #[trigger] items[j])) && (forall|
            j: int,
        | 0 <= j < i ==> !cand_at_least(#[trigger] items[j], items[i]))
}

/// Select the best model of each kind from what was discovered on disk.
pub fn select_best_models(
    face_detection: Vec<ModelCandidate>,
    liveness: Vec<ModelCandidate>,
) -> (r: SelectedCatalog)
    ensures
        r.face_detection is Some <==> face_detection@.len() > 0,
        r.liveness is Some <==> liveness@.len() > 0,
        r.face_detection matches Some(sel) ==> selection_of(
            sel,
            face_detection@,
            "face_detection"@,
        ),
        r.liveness matches Some(sel) ==> selection_of(sel, liveness@, "liveness"@),
{
    let fd = match pick_best(face_detection) {
        Some(mut sel) => {
            sel.kind = "face_detection".to_owned();
            Some(sel)
        },
        None => None,
    };
    let lv = match pick_best(liveness) {
        Some(mut sel) => {
            sel.kind = "liveness".to_owned();
            Some(sel)
        },
        None => None,
    };
    SelectedCatalog { face_detection: fd, liveness: lv }
}

} // verus!
