//! The environment resolver: raw documents, the right-biased merge of a
//! base-environment chain, per-field variable expansion, and finalization
//! with defaults. Document loading and schema checking happen outside;
//! the resolver works over a store of already parsed documents and asks
//! its caller, through `ResolveHalt::NeedDoc`, for each one it misses.

use vstd::prelude::*;
use crate::error::{CODE_MISSING_IMAGE, CODE_NOT_FOUND, CODE_TOO_DEEP, SarusError, SarusResult};
use crate::mount::{sarus_mounts_from_strings, SarusMounts};
use crate::smap::StrMap;
use crate::strutil::{chars_to_string, push_str_chars};
use vstd::string::StringExecFns;

verus! {

/// A value under the annotations table: a string, a nested table, or any
/// other scalar already rendered as text.
pub enum AnnoVal {
    Str(String),
    Table(Vec<(String, AnnoVal)>),
    Other(String),
}

/// Annotations as they arrive from a document: a possibly nested table,
/// or an already flat map.
pub enum Annotations {
    TypeMap(Vec<(String, AnnoVal)>),
    TypeHashMap(StrMap),
}

/// The base environments a document names: one, or a list resolved in
/// order.
pub enum BaseEnvironment {
    TypeString(String),
    TypeVec(Vec<String>),
}

/// The flat key/value pairs of one annotation entry: a nested table
/// contributes one pair per leaf, its keys joined with dots.
pub open spec fn flat_one(prefix: Seq<char>, k: Seq<char>, v: AnnoVal) -> Seq<
    (Seq<char>, Seq<char>),
>
    decreases v, 0int,
{
    match v {
        AnnoVal::Str(s) => seq![(prefix + k, s@)],
        AnnoVal::Other(s) => seq![(prefix + k, s@)],
        AnnoVal::Table(t) => flat_entries(prefix + k + seq!['.'], t@),
    }
}

/// The flat pairs of a whole entry list, in entry order.
pub open spec fn flat_entries(prefix: Seq<char>, entries: Seq<(String, AnnoVal)>) -> Seq<
    (Seq<char>, Seq<char>),
>
    decreases entries, 1int,
{
    if entries.len() == 0 {
        Seq::empty()
    } else {
        flat_entries(prefix, entries.drop_last()) + flat_one(
            prefix,
            entries.last().0@,
            entries.last().1,
        )
    }
}

/// The map that a pair sequence builds up, later pairs overriding earlier
/// ones.
pub open spec fn kv_map(ps: Seq<(Seq<char>, Seq<char>)>) -> Map<Seq<char>, Seq<char>>
    decreases ps.len(),
{
    if ps.len() == 0 {
        Map::empty()
    } else {
        kv_map(ps.drop_last()).insert(ps.last().0, ps.last().1)
    }
}

/// The flat map of an annotations field.
pub open spec fn anno_map(a: &Annotations) -> Map<Seq<char>, Seq<char>> {
    match a {
        Annotations::TypeHashMap(m) => m@,
        Annotations::TypeMap(t) => kv_map(flat_entries(Seq::empty(), t@)),
    }
}

/// Insert the flat pairs of every entry of `list` into `out`, keys
/// prefixed with `prefix`.
fn flatten_into(prefix: &Vec<char>, list: &Vec<(String, AnnoVal)>, out: &mut StrMap)
    requires
        old(out).wf(),
    ensures
        final(out).wf(),
        final(out)@ == kv_map_from(old(out)@, flat_entries(prefix@, list@)),
    decreases list@, 1int,
{
    let mut i: usize = 0;
    proof {
        assert(list@.take(0) =~= Seq::<(String, AnnoVal)>::empty());
        assert(flat_entries(prefix@, list@.take(0)) =~= Seq::<(Seq<char>, Seq<char>)>::empty());
    }
    while i < list.len()
        invariant
            i <= list@.len(),
            out.wf(),
            out@ == kv_map_from(old(out)@, flat_entries(prefix@, list@.take(i as int))),
        decreases list@.len() - i,
    {
        proof {
            vstd::seq::axiom_seq_index_decreases(list@, i as int);
        }
        let ghost pre_entries = flat_entries(prefix@, list@.take(i as int));
        let ghost gkey = prefix@ + list@[i as int].0@;
        let ghost one = flat_one(prefix@, list@[i as int].0@, list@[i as int].1);
        match &list[i].1 {
            AnnoVal::Str(s) => {
                let mut key: Vec<char> = Vec::new();
                crate::strutil::push_all(&mut key, prefix);
                push_str_chars(&mut key, list[i].0.as_str());
                proof {
                    assert(key@ =~= gkey);
                }
                out.insert(chars_to_string(&key), s.clone());
                proof {
                    assert(one =~= seq![(gkey, s@)]);
                    assert(one.drop_last() =~= Seq::<(Seq<char>, Seq<char>)>::empty());
                    lemma_kv_map_from_concat(old(out)@, pre_entries, one);
                    let ghost base = kv_map_from(old(out)@, pre_entries);
                    assert(kv_map_from(base, one.drop_last()) == base);
                    assert(kv_map_from(base, one) == base.insert(gkey, s@));
                }
            },
            AnnoVal::Other(s) => {
                let mut key: Vec<char> = Vec::new();
                crate::strutil::push_all(&mut key, prefix);
                push_str_chars(&mut key, list[i].0.as_str());
                proof {
                    assert(key@ =~= gkey);
                }
                out.insert(chars_to_string(&key), s.clone());
                proof {
                    assert(one =~= seq![(gkey, s@)]);
                    assert(one.drop_last() =~= Seq::<(Seq<char>, Seq<char>)>::empty());
                    lemma_kv_map_from_concat(old(out)@, pre_entries, one);
                    let ghost base = kv_map_from(old(out)@, pre_entries);
                    assert(kv_map_from(base, one.drop_last()) == base);
                    assert(kv_map_from(base, one) == base.insert(gkey, s@));
                }
            },
            AnnoVal::Table(t) => {
                let mut sub_prefix: Vec<char> = Vec::new();
                crate::strutil::push_all(&mut sub_prefix, prefix);
                push_str_chars(&mut sub_prefix, list[i].0.as_str());
                sub_prefix.push('.');
                proof {
                    assert(sub_prefix@ =~= prefix@ + list@[i as int].0@ + seq!['.']);
                }
                flatten_into(&sub_prefix, t, out);
                proof {
                    assert(one == flat_entries(prefix@ + list@[i as int].0@ + seq!['.'], t@));
                    lemma_kv_map_from_concat(old(out)@, pre_entries, one);
                }
            },
        }
        i = i + 1;
        proof {
            let ghost cur = list@.take(i as int);
            assert(cur.drop_last() =~= list@.take(i - 1));
            assert(cur.last() == list@[i - 1]);
            assert(flat_entries(prefix@, cur) == pre_entries + one);
        }
    }
    proof {
        assert(list@.take(list@.len() as int) =~= list@);
    }
}

/// The map `m` after the pairs of `ps` are inserted in order.
pub open spec fn kv_map_from(m: Map<Seq<char>, Seq<char>>, ps: Seq<(Seq<char>, Seq<char>)>) -> Map<
    Seq<char>,
    Seq<char>,
>
    decreases ps.len(),
{
    if ps.len() == 0 {
        m
    } else {
        kv_map_from(m, ps.drop_last()).insert(ps.last().0, ps.last().1)
    }
}

proof fn lemma_kv_map_from_concat(
    m: Map<Seq<char>, Seq<char>>,
    a: Seq<(Seq<char>, Seq<char>)>,
    b: Seq<(Seq<char>, Seq<char>)>,
)
    ensures
        kv_map_from(m, a + b) == kv_map_from(kv_map_from(m, a), b),
    decreases b.len(),
{
    if b.len() == 0 {
        assert(a + b =~= a);
    } else {
        lemma_kv_map_from_concat(m, a, b.drop_last());
        assert((a + b).drop_last() =~= a + b.drop_last());
        assert((a + b).last() == b.last());
    }
}

proof fn lemma_kv_map_from_empty(ps: Seq<(Seq<char>, Seq<char>)>)
    ensures
        kv_map_from(Map::empty(), ps) == kv_map(ps),
    decreases ps.len(),
{
    if ps.len() > 0 {
        lemma_kv_map_from_empty(ps.drop_last());
    }
}

impl Annotations {
    /// The annotations as one flat map with dotted keys.
    pub fn as_flat_map(&self) -> (r: StrMap)
        requires
            self.wf(),
        ensures
            r.wf(),
            r@ == anno_map(self),
    {
        match self {
            Annotations::TypeHashMap(m) => m.duplicate(),
            Annotations::TypeMap(t) => {
                let mut out = StrMap::new();
                let prefix: Vec<char> = Vec::new();
                flatten_into(&prefix, t, &mut out);
                proof {
                    lemma_kv_map_from_empty(flat_entries(Seq::empty(), t@));
                }
                out
            },
        }
    }

    /// A flat annotations value is one whose map keeps its key invariant.
    pub open spec fn wf(&self) -> bool {
        match self {
            Annotations::TypeHashMap(m) => m.wf(),
            Annotations::TypeMap(_) => true,
        }
    }
}

/// The views of a list of strings.
pub open spec fn strs(v: Vec<String>) -> Seq<Seq<char>> {
    v@.map_values(|s: String| s@)
}

/// A partial document as loaded from one file: every field optional.
pub struct RawEDF {
    pub annotations: Option<Annotations>,
    pub base_environment: Option<BaseEnvironment>,
    pub devices: Option<Vec<String>>,
    pub entrypoint: Option<bool>,
    pub env: Option<StrMap>,
    pub engine: Option<String>,
    pub image: Option<String>,
    pub mounts: Option<Vec<String>>,
    pub parallax_enable: Option<bool>,
    pub parallax_imagestore: Option<String>,
    pub parallax_path: Option<String>,
    pub parallax_mount_program: Option<String>,
    pub perfmon: Option<bool>,
    pub podman_module: Option<String>,
    pub podman_path: Option<String>,
    pub podman_tmp_path: Option<String>,
    pub workdir: Option<String>,
    pub writable: Option<bool>,
}

/// The flat annotations map of a document, empty where the field is unset.
pub open spec fn doc_annos(d: &RawEDF) -> Map<Seq<char>, Seq<char>> {
    match d.annotations {
        Some(a) => anno_map(&a),
        None => Map::empty(),
    }
}

/// The environment map of a document, empty where the field is unset.
pub open spec fn doc_env(d: &RawEDF) -> Map<Seq<char>, Seq<char>> {
    match d.env {
        Some(e) => e@,
        None => Map::empty(),
    }
}

impl Default for RawEDF {
    /// The document with every field unset.
    fn default() -> (r: RawEDF)
        ensures
            r.annotations is None,
            r.base_environment is None,
            r.devices is None,
            r.entrypoint is None,
            r.env is None,
            r.engine is None,
            r.image is None,
            r.mounts is None,
            r.parallax_enable is None,
            r.parallax_imagestore is None,
            r.parallax_path is None,
            r.parallax_mount_program is None,
            r.perfmon is None,
            r.podman_module is None,
            r.podman_path is None,
            r.podman_tmp_path is None,
            r.workdir is None,
            r.writable is None,
    {
        RawEDF {
            annotations: None,
            base_environment: None,
            devices: None,
            entrypoint: None,
            env: None,
            engine: None,
            image: None,
            mounts: None,
            parallax_enable: None,
            parallax_imagestore: None,
            parallax_path: None,
            parallax_mount_program: None,
            perfmon: None,
            podman_module: None,
            podman_path: None,
            podman_tmp_path: None,
            workdir: None,
            writable: None,
        }
    }
}

impl RawEDF {
    /// Both maps of the document keep their key invariants.
    pub open spec fn wf(&self) -> bool {
        &&& match self.annotations {
            Some(a) => a.wf(),
            None => true,
        }
        &&& match self.env {
            Some(e) => e.wf(),
            None => true,
        }
    }

    /// Overwrite this document's fields with the other document's set
    /// fields: scalars are replaced, the maps are unioned with the other
    /// side winning, and the lists are concatenated self-then-other.
    #[verifier::rlimit(100)]
    #[verifier::spinoff_prover]
    pub fn extend(&mut self, other: &RawEDF)
        requires
            old(self).wf(),
            other.wf(),
        ensures
            final(self).wf(),
            match other.annotations {
                None => final(self).annotations == old(self).annotations,
                Some(_) => final(self).annotations matches Some(a2) && (a2 matches
                    Annotations::TypeHashMap(h) && h.wf() && h@ == doc_annos(
                    old(self),
                ).union_prefer_right(doc_annos(other))),
            },
            match other.devices {
                None => final(self).devices == old(self).devices,
                Some(d) => match old(self).devices {
                    None => final(self).devices matches Some(v) && strs(v) == strs(d),
                    Some(a) => final(self).devices matches Some(v) && strs(v) == strs(a)
                        + strs(d),
                },
            },
            match other.mounts {
                None => final(self).mounts == old(self).mounts,
                Some(d) => match old(self).mounts {
                    None => final(self).mounts matches Some(v) && strs(v) == strs(d),
                    Some(a) => final(self).mounts matches Some(v) && strs(v) == strs(a)
                        + strs(d),
                },
            },
            match other.env {
                None => final(self).env == old(self).env,
                Some(_) => final(self).env matches Some(e) && e.wf() && e@ == doc_env(
                    old(self),
                ).union_prefer_right(doc_env(other)),
            },
            final(self).base_environment == old(self).base_environment,
            final(self).entrypoint == (if other.entrypoint is Some {
                other.entrypoint
            } else {
                old(self).entrypoint
            }),
            final(self).engine == (if other.engine is Some {
                other.engine
            } else {
                old(self).engine
            }),
            final(self).image == (if other.image is Some {
                other.image
            } else {
                old(self).image
            }),
            final(self).parallax_enable == (if other.parallax_enable is Some {
                other.parallax_enable
            } else {
                old(self).parallax_enable
            }),
            final(self).parallax_imagestore == (if other.parallax_imagestore is Some {
                other.parallax_imagestore
            } else {
                old(self).parallax_imagestore
            }),
            final(self).parallax_path == (if other.parallax_path is Some {
                other.parallax_path
            } else {
                old(self).parallax_path
            }),
            final(self).parallax_mount_program == (if other.parallax_mount_program is Some {
                other.parallax_mount_program
            } else {
                old(self).parallax_mount_program
            }),
            final(self).perfmon == (if other.perfmon is Some {
                other.perfmon
            } else {
                old(self).perfmon
            }),
            final(self).podman_module == (if other.podman_module is Some {
                other.podman_module
            } else {
                old(self).podman_module
            }),
            final(self).podman_path == (if other.podman_path is Some {
                other.podman_path
            } else {
                old(self).podman_path
            }),
            final(self).podman_tmp_path == (if other.podman_tmp_path is Some {
                other.podman_tmp_path
            } else {
                old(self).podman_tmp_path
            }),
            final(self).workdir == (if other.workdir is Some {
                other.workdir
            } else {
                old(self).workdir
            }),
            final(self).writable == (if other.writable is Some {
                other.writable
            } else {
                old(self).writable
            }),
    {
        let sa = self.annotations.take();
        let sb = self.base_environment.take();
        let sdev = self.devices.take();
        let smnt = self.mounts.take();
        let senv = self.env.take();
        let seng = self.engine.take();
        let simg = self.image.take();
        let spi = self.parallax_imagestore.take();
        let spp = self.parallax_path.take();
        let spm = self.parallax_mount_program.take();
        let spmod = self.podman_module.take();
        let sppath = self.podman_path.take();
        let sptmp = self.podman_tmp_path.take();
        let swd = self.workdir.take();
        let sep = self.entrypoint;
        let spe = self.parallax_enable;
        let sperf = self.perfmon;
        let swr = self.writable;
        let merged = RawEDF {
            annotations: merge_annotations(sa, &other.annotations),
            base_environment: sb,
            devices: merge_string_lists(sdev, &other.devices),
            entrypoint: if other.entrypoint.is_some() {
                other.entrypoint
            } else {
                sep
            },
            env: merge_env_maps(senv, &other.env),
            engine: merge_scalars(seng, &other.engine),
            image: merge_scalars(simg, &other.image),
            mounts: merge_string_lists(smnt, &other.mounts),
            parallax_enable: if other.parallax_enable.is_some() {
                other.parallax_enable
            } else {
                spe
            },
            parallax_imagestore: merge_scalars(spi, &other.parallax_imagestore),
            parallax_path: merge_scalars(spp, &other.parallax_path),
            parallax_mount_program: merge_scalars(spm, &other.parallax_mount_program),
            perfmon: if other.perfmon.is_some() {
                other.perfmon
            } else {
                sperf
            },
            podman_module: merge_scalars(spmod, &other.podman_module),
            podman_path: merge_scalars(sppath, &other.podman_path),
            podman_tmp_path: merge_scalars(sptmp, &other.podman_tmp_path),
            workdir: merge_scalars(swd, &other.workdir),
            writable: if other.writable.is_some() {
                other.writable
            } else {
                swr
            },
        };
        *self = merged;
    }
}

/// The lower-precedence scalar overwritten by the higher-precedence one
/// where that one is set.
fn merge_scalars(a: Option<String>, b: &Option<String>) -> (r: Option<String>)
    ensures
        r == (if b is Some {
            *b
        } else {
            a
        }),
{
    match b {
        Some(s) => Some(s.clone()),
        None => a,
    }
}

/// The two annotation fields merged into one flat map, the second side's
/// keys winning; an unset second side leaves the first as it is.
fn merge_annotations(a: Option<Annotations>, b: &Option<Annotations>) -> (r: Option<Annotations>)
    requires
        match a {
            Some(x) => x.wf(),
            None => true,
        },
        match b {
            Some(x) => x.wf(),
            None => true,
        },
    ensures
        match b {
            None => r == a,
            Some(_) => r matches Some(a2) && (a2 matches Annotations::TypeHashMap(h) && h.wf()
                && h@ == (match a {
                Some(x) => anno_map(&x),
                None => Map::<Seq<char>, Seq<char>>::empty(),
            }).union_prefer_right(anno_map(&b->0))),
        },
{
    match b {
        Some(ob) => {
            let mut merged = match &a {
                Some(sa) => sa.as_flat_map(),
                None => StrMap::new(),
            };
            let oh = ob.as_flat_map();
            merged.extend(&oh);
            Some(Annotations::TypeHashMap(merged))
        },
        None => a,
    }
}

/// The two list fields concatenated first-then-second; an unset second
/// side leaves the first as it is.
fn merge_string_lists(a: Option<Vec<String>>, b: &Option<Vec<String>>) -> (r: Option<Vec<String>>)
    ensures
        match b {
            None => r == a,
            Some(d) => match a {
                None => r matches Some(v) && strs(v) == strs(*d),
                Some(x) => r matches Some(v) && strs(v) == strs(x) + strs(*d),
            },
        },
{
    match b {
        Some(d) => {
            let mut dd = copy_strings(d);
            match a {
                Some(x) => {
                    let mut x2 = x;
                    let ghost xv = strs(x2);
                    x2.append(&mut dd);
                    proof {
                        assert(strs(x2) =~= xv + strs(*d));
                    }
                    Some(x2)
                },
                None => Some(dd),
            }
        },
        None => a,
    }
}

/// The two environment maps unioned, the second side's keys winning; an
/// unset second side leaves the first as it is.
fn merge_env_maps(a: Option<StrMap>, b: &Option<StrMap>) -> (r: Option<StrMap>)
    requires
        match a {
            Some(x) => x.wf(),
            None => true,
        },
        match b {
            Some(x) => x.wf(),
            None => true,
        },
    ensures
        match b {
            None => r == a,
            Some(_) => r matches Some(e) && e.wf() && e@ == (match a {
                Some(x) => x@,
                None => Map::<Seq<char>, Seq<char>>::empty(),
            }).union_prefer_right(b->0@),
        },
{
    match b {
        Some(ob) => {
            match a {
                Some(mut se) => {
                    se.extend(ob);
                    Some(se)
                },
                None => {
                    let fresh = ob.duplicate();
                    proof {
                        assert(Map::<Seq<char>, Seq<char>>::empty().union_prefer_right(ob@)
                            =~= ob@);
                    }
                    Some(fresh)
                },
            }
        },
        None => a,
    }
}

/// A copy of a list of strings.
pub fn copy_strings(v: &Vec<String>) -> (r: Vec<String>)
    ensures
        strs(r) == strs(*v),
        r@.len() == v@.len(),
{
    let mut r: Vec<String> = Vec::new();
    let mut i: usize = 0;
    while i < v.len()
        invariant
            i <= v@.len(),
            r@.len() == i,
            forall|j: int| 0 <= j < i ==> #[trigger] r@[j]@ == v@[j]@,
        decreases v@.len() - i,
    {
        r.push(v[i].clone());
        i = i + 1;
    }
    proof {
        assert(strs(r) =~= strs(*v));
    }
    r
}


/// No string occurs twice in the list.
pub open spec fn distinct_strs(v: Vec<String>) -> bool {
    forall|i: int, j: int| 0 <= i < j < strs(v).len() ==> strs(v)[i] != strs(v)[j]
}

/// The list with every repeated string removed, keeping first occurrences.
pub fn dedup_strings(v: Vec<String>) -> (r: Vec<String>)
    ensures
        strs(r) == crate::strutil::dedup_seq(strs(v)),
        distinct_strs(r),
{
    let mut out: Vec<String> = Vec::new();
    let mut i: usize = 0;
    proof {
        assert(strs(v).take(0) =~= Seq::<Seq<char>>::empty());
        assert(strs(out) =~= crate::strutil::dedup_seq(strs(v).take(0)));
    }
    while i < v.len()
        invariant
            i <= v@.len(),
            strs(out) == crate::strutil::dedup_seq(strs(v).take(i as int)),
        decreases v@.len() - i,
    {
        let mut seen = false;
        let mut j: usize = 0;
        while j < out.len()
            invariant
                j <= out@.len(),
                i < v@.len(),
                seen == exists|k: int| 0 <= k < j && #[trigger] out@[k]@ == v@[i as int]@,
            decreases out@.len() - j,
        {
            if crate::strutil::str_eq(out[j].as_str(), v[i].as_str()) {
                seen = true;
                proof {
                    assert(out@[j as int]@ == v@[i as int]@);
                }
            }
            j = j + 1;
        }
        proof {
            if seen {
                let k = choose|k: int| 0 <= k < out@.len() && #[trigger] out@[k]@ == v@[i as int]@;
                assert(strs(out)[k] == v@[i as int]@);
                assert(strs(out).contains(v@[i as int]@));
            } else {
                if strs(out).contains(v@[i as int]@) {
                    let k = choose|k: int|
                        0 <= k < strs(out).len() && strs(out)[k] == v@[i as int]@;
                    assert(out@[k]@ == v@[i as int]@);
                    assert(false);
                }
            }
        }
        if !seen {
            out.push(v[i].clone());
        }
        i = i + 1;
        proof {
            let ghost pre = strs(v).take(i as int);
            assert(pre.drop_last() =~= strs(v).take(i - 1));
            assert(pre.last() == v@[i - 1]@);
            if !seen {
                assert(strs(out) =~= strs(out).take(strs(out).len() - 1).push(out@.last()@));
                assert(strs(out).take(strs(out).len() - 1) =~= crate::strutil::dedup_seq(
                    strs(v).take(i - 1),
                ));
            }
            assert(strs(out) =~= crate::strutil::dedup_seq(pre));
        }
    }
    proof {
        assert(strs(v).take(v@.len() as int) =~= strs(v));
        crate::strutil::lemma_dedup_seq_props(strs(v));
    }
    out
}

/// Whether every set string field of the document expands under `env`.
pub open spec fn doc_expands_ok(d: &RawEDF, env: Map<Seq<char>, Seq<char>>) -> bool {
    &&& match d.devices {
        Some(v) => crate::common::expand_all(strs(v), env) is Ok,
        None => true,
    }
    &&& forall|k: Seq<char>|
        #[trigger] doc_env(d).dom().contains(k) ==> crate::common::expand_hardened(
            doc_env(d)[k],
            env,
        ) is Ok
    &&& forall|k: Seq<char>|
        #[trigger] doc_annos(d).dom().contains(k) ==> crate::common::expand_hardened(
            doc_annos(d)[k],
            env,
        ) is Ok
    &&& match d.engine {
        Some(s) => crate::common::expand_hardened(s@, env) is Ok,
        None => true,
    }
    &&& match d.parallax_imagestore {
        Some(s) => crate::common::expand_hardened(s@, env) is Ok,
        None => true,
    }
    &&& match d.parallax_path {
        Some(s) => crate::common::expand_hardened(s@, env) is Ok,
        None => true,
    }
    &&& match d.parallax_mount_program {
        Some(s) => crate::common::expand_hardened(s@, env) is Ok,
        None => true,
    }
    &&& match d.podman_module {
        Some(s) => crate::common::expand_hardened(s@, env) is Ok,
        None => true,
    }
    &&& match d.podman_path {
        Some(s) => crate::common::expand_hardened(s@, env) is Ok,
        None => true,
    }
    &&& match d.podman_tmp_path {
        Some(s) => crate::common::expand_hardened(s@, env) is Ok,
        None => true,
    }
    &&& match d.workdir {
        Some(s) => crate::common::expand_hardened(s@, env) is Ok,
        None => true,
    }
}

/// One optional string field expanded in place.
fn expand_opt_field(o: Option<String>, env: &Option<StrMap>) -> (r: Result<
    Option<String>,
    crate::error::SarusError,
>)
    requires
        match env {
            Some(m) => m.wf(),
            None => true,
        },
    ensures
        o is None ==> r == Ok::<Option<String>, crate::error::SarusError>(None::<String>),
        r matches Ok(o2) ==> (o2 is Some <==> o is Some),
        match env {
            Some(m) => match o {
                Some(s) => (match crate::common::expand_hardened(s@, m@) {
                    Ok(t) => r matches Ok(o2) && o2 matches Some(s2) && s2@ == t,
                    Err(f) => r matches Err(e) && e.code == crate::mount::expand_code(f),
                }),
                None => true,
            },
            None => true,
        },
        r matches Err(e) ==> e.code == crate::error::CODE_UNBOUND_VARIABLE || e.code
            == crate::error::CODE_BANNED_EXPANSION,
        match env {
            Some(_) => true,
            None => (match o {
                Some(s) => crate::common::dollar_free(s@) ==> (r matches Ok(o2) && o2 matches
                    Some(s2) && s2@ == s@),
                None => true,
            }),
        },
{
    match o {
        Some(s) => match crate::common::expand_vars_string(s, env) {
            Ok(t) => Ok(Some(t)),
            Err(e) => Err(e),
        },
        None => Ok(None),
    }
}

/// Whether no string field of the document holds a `$`, so that ambient
/// expansion cannot change any of them.
pub open spec fn doc_dollar_free(d: &RawEDF) -> bool {
    &&& match d.devices {
        Some(v) => forall|k: int| 0 <= k < v@.len() ==> crate::common::dollar_free(#[trigger] v@[k]@),
        None => true,
    }
    &&& forall|k: Seq<char>|
        #[trigger] doc_env(d).dom().contains(k) ==> crate::common::dollar_free(doc_env(d)[k])
    &&& forall|k: Seq<char>|
        #[trigger] doc_annos(d).dom().contains(k) ==> crate::common::dollar_free(doc_annos(d)[k])
    &&& opt_dollar_free(d.engine)
    &&& opt_dollar_free(d.parallax_imagestore)
    &&& opt_dollar_free(d.parallax_path)
    &&& opt_dollar_free(d.parallax_mount_program)
    &&& opt_dollar_free(d.podman_module)
    &&& opt_dollar_free(d.podman_path)
    &&& opt_dollar_free(d.podman_tmp_path)
    &&& opt_dollar_free(d.workdir)
}

/// Whether an optional string field holds no `$`.
pub open spec fn opt_dollar_free(o: Option<String>) -> bool {
    match o {
        Some(s) => crate::common::dollar_free(s@),
        None => true,
    }
}

/// An optional string field kept as it is.
pub open spec fn opt_field_kept(before: Option<String>, after: Option<String>) -> bool {
    match before {
        None => after is None,
        Some(s) => after matches Some(s2) && s2@ == s@,
    }
}

/// The relation between a dollar-free document and its `ExpandFields`
/// result under the ambient environment: every field kept, devices
/// deduplicated keeping first occurrences, the annotations flattened.
pub open spec fn ambient_kept(d: &RawEDF, out: &RawEDF) -> bool {
    &&& out.base_environment == d.base_environment
    &&& out.image == d.image
    &&& out.entrypoint == d.entrypoint
    &&& out.parallax_enable == d.parallax_enable
    &&& out.perfmon == d.perfmon
    &&& out.writable == d.writable
    &&& match d.mounts {
        None => out.mounts is None,
        Some(ms) => out.mounts matches Some(ms2) && strs(ms2) == strs(ms),
    }
    &&& match d.devices {
        None => out.devices is None,
        Some(v) => out.devices matches Some(v2) && strs(v2) == crate::strutil::dedup_seq(
            strs(v),
        ),
    }
    &&& match d.env {
        None => out.env is None,
        Some(_) => out.env matches Some(e2) && e2@ == doc_env(d),
    }
    &&& match d.annotations {
        None => out.annotations is None,
        Some(_) => out.annotations matches Some(a2) && (a2 matches Annotations::TypeHashMap(h2)
            && h2@ == doc_annos(d)),
    }
    &&& opt_field_kept(d.engine, out.engine)
    &&& opt_field_kept(d.parallax_imagestore, out.parallax_imagestore)
    &&& opt_field_kept(d.parallax_path, out.parallax_path)
    &&& opt_field_kept(d.parallax_mount_program, out.parallax_mount_program)
    &&& opt_field_kept(d.podman_module, out.podman_module)
    &&& opt_field_kept(d.podman_path, out.podman_path)
    &&& opt_field_kept(d.podman_tmp_path, out.podman_tmp_path)
    &&& opt_field_kept(d.workdir, out.workdir)
}

/// One optional string field related to its expansion under `env`.
pub open spec fn opt_field_expanded(
    before: Option<String>,
    after: Option<String>,
    env: Map<Seq<char>, Seq<char>>,
) -> bool {
    match before {
        None => after is None,
        Some(s) => after matches Some(s2) && crate::common::expand_hardened(s@, env) is Ok
            && s2@ == crate::common::expand_hardened(s@, env)->Ok_0,
    }
}

/// The whole relation between a document and its `ExpandFields` result
/// under an explicit environment: scalars and mount strings unchanged,
/// devices expanded and deduplicated keeping first occurrences, both maps
/// expanded value-wise, and every string scalar expanded.
pub open spec fn expanded_of(d: &RawEDF, out: &RawEDF, env: Map<Seq<char>, Seq<char>>) -> bool {
    &&& out.base_environment == d.base_environment
    &&& out.image == d.image
    &&& out.entrypoint == d.entrypoint
    &&& out.parallax_enable == d.parallax_enable
    &&& out.perfmon == d.perfmon
    &&& out.writable == d.writable
    &&& match d.mounts {
        None => out.mounts is None,
        Some(ms) => out.mounts matches Some(ms2) && strs(ms2) == strs(ms),
    }
    &&& match d.devices {
        None => out.devices is None,
        Some(v) => out.devices matches Some(v2) && crate::common::expand_all(strs(v), env) is Ok
            && strs(v2) == crate::strutil::dedup_seq(
            crate::common::expand_all(strs(v), env)->Ok_0,
        ),
    }
    &&& match d.env {
        None => out.env is None,
        Some(_) => out.env matches Some(e2) && e2@.dom() == doc_env(d).dom() && forall|
            k: Seq<char>,
        |
            #[trigger] doc_env(d).dom().contains(k) ==> crate::common::expand_hardened(
                doc_env(d)[k],
                env,
            ) is Ok && e2@[k] == crate::common::expand_hardened(doc_env(d)[k], env)->Ok_0,
    }
    &&& match d.annotations {
        None => out.annotations is None,
        Some(_) => out.annotations matches Some(a2) && (a2 matches Annotations::TypeHashMap(h2)
            && h2@.dom() == doc_annos(d).dom() && forall|k: Seq<char>|
            #[trigger] doc_annos(d).dom().contains(k) ==> crate::common::expand_hardened(
                doc_annos(d)[k],
                env,
            ) is Ok && h2@[k] == crate::common::expand_hardened(doc_annos(d)[k], env)->Ok_0),
    }
    &&& opt_field_expanded(d.engine, out.engine, env)
    &&& opt_field_expanded(d.parallax_imagestore, out.parallax_imagestore, env)
    &&& opt_field_expanded(d.parallax_path, out.parallax_path, env)
    &&& opt_field_expanded(d.parallax_mount_program, out.parallax_mount_program, env)
    &&& opt_field_expanded(d.podman_module, out.podman_module, env)
    &&& opt_field_expanded(d.podman_path, out.podman_path, env)
    &&& opt_field_expanded(d.podman_tmp_path, out.podman_tmp_path, env)
    &&& opt_field_expanded(d.workdir, out.workdir, env)
}

impl RawEDF {
    /// The `ExpandFields` step of resolution: every set string scalar,
    /// every map value and every device is expanded, and devices are
    /// deduplicated keeping first occurrences. Mount strings stay raw;
    /// they are compiled at finalization.
    pub fn expand_fields(self, env: &Option<StrMap>) -> (r: SarusResult<RawEDF>)
        requires
            self.wf(),
            match env {
                Some(m) => m.wf(),
                None => true,
            },
        ensures
            r matches Ok(d2) ==> d2.wf(),
            r matches Ok(d2) ==> d2.base_environment == self.base_environment && d2.image
                == self.image && d2.entrypoint == self.entrypoint && d2.parallax_enable
                == self.parallax_enable && d2.perfmon == self.perfmon && d2.writable
                == self.writable,
            r matches Ok(d2) ==> (match self.mounts {
                None => d2.mounts is None,
                Some(ms) => d2.mounts matches Some(ms2) && strs(ms2) == strs(ms),
            }),
            r matches Ok(d2) ==> (match self.devices {
                None => d2.devices is None,
                Some(_) => d2.devices matches Some(v2) && distinct_strs(v2),
            }),
            r matches Err(e) ==> e.code == crate::error::CODE_UNBOUND_VARIABLE || e.code
                == crate::error::CODE_BANNED_EXPANSION,
            match env {
                Some(m) => {
                    &&& doc_expands_ok(&self, m@) ==> r is Ok
                    &&& r matches Ok(d2) ==> expanded_of(&self, &d2, m@)
                },
                None => doc_dollar_free(&self) ==> (r matches Ok(d2) && ambient_kept(
                    &self,
                    &d2,
                )),
            },
    {
        let mut cur = self;
        let devices = match cur.devices.take() {
            Some(v) => {
                let ghost gv = v;
                let ev = crate::common::expand_vars_vec(v, env)?;
                proof {
                    if env is None && doc_dollar_free(&self) {
                        assert(strs(ev) =~= strs(gv));
                    }
                }
                Some(dedup_strings(ev))
            },
            None => None,
        };
        let env_map = match cur.env.take() {
            Some(e) => {
                let ghost ge = e;
                match crate::common::expand_vars_hashmap(e, env) {
                    Ok(x) => {
                        proof {
                            if env is None && doc_dollar_free(&self) {
                                assert(doc_env(&self) == ge@);
                                assert forall|k: Seq<char>| #[trigger] ge@.dom().contains(
                                    k,
                                ) implies crate::common::dollar_free(ge@[k]) by {
                                    assert(doc_env(&self).dom().contains(k));
                                }
                                assert(x@ == doc_env(&self));
                            }
                        }
                        Some(x)
                    },
                    Err(er) => {
                        proof {
                            if env is None && doc_dollar_free(&self) {
                                assert(doc_env(&self) == ge@);
                                assert forall|k: Seq<char>| #[trigger] ge@.dom().contains(
                                    k,
                                ) implies crate::common::dollar_free(ge@[k]) by {
                                    assert(doc_env(&self).dom().contains(k));
                                }
                            }
                        }
                        return Err(er);
                    },
                }
            },
            None => None,
        };
        let annotations = match cur.annotations.take() {
            Some(a) => {
                let flat = a.as_flat_map();
                let ghost gf = flat;
                match crate::common::expand_vars_hashmap(flat, env) {
                    Ok(ex) => {
                        proof {
                            if env is None && doc_dollar_free(&self) {
                                assert(doc_annos(&self) == gf@);
                                assert forall|k: Seq<char>| #[trigger] gf@.dom().contains(
                                    k,
                                ) implies crate::common::dollar_free(gf@[k]) by {
                                    assert(doc_annos(&self).dom().contains(k));
                                }
                                assert(ex@ == doc_annos(&self));
                            }
                        }
                        Some(Annotations::TypeHashMap(ex))
                    },
                    Err(er) => {
                        proof {
                            if env is None && doc_dollar_free(&self) {
                                assert(doc_annos(&self) == gf@);
                                assert forall|k: Seq<char>| #[trigger] gf@.dom().contains(
                                    k,
                                ) implies crate::common::dollar_free(gf@[k]) by {
                                    assert(doc_annos(&self).dom().contains(k));
                                }
                            }
                        }
                        return Err(er);
                    },
                }
            },
            None => None,
        };
        let engine = expand_opt_field(cur.engine.take(), env)?;
        let parallax_imagestore = expand_opt_field(cur.parallax_imagestore.take(), env)?;
        let parallax_path = expand_opt_field(cur.parallax_path.take(), env)?;
        let parallax_mount_program = expand_opt_field(cur.parallax_mount_program.take(), env)?;
        let podman_module = expand_opt_field(cur.podman_module.take(), env)?;
        let podman_path = expand_opt_field(cur.podman_path.take(), env)?;
        let podman_tmp_path = expand_opt_field(cur.podman_tmp_path.take(), env)?;
        let workdir = expand_opt_field(cur.workdir.take(), env)?;
        Ok(
            RawEDF {
                annotations,
                base_environment: cur.base_environment,
                devices,
                entrypoint: cur.entrypoint,
                env: env_map,
                engine,
                image: cur.image,
                mounts: cur.mounts,
                parallax_enable: cur.parallax_enable,
                parallax_imagestore,
                parallax_path,
                parallax_mount_program,
                perfmon: cur.perfmon,
                podman_module,
                podman_path,
                podman_tmp_path,
                workdir,
                writable: cur.writable,
            },
        )
    }
}


/// A fully resolved environment: every field populated, image mandatory.
pub struct EDF {
    pub annotations: StrMap,
    pub devices: Vec<String>,
    pub entrypoint: bool,
    pub env: StrMap,
    pub image: String,
    pub mounts: SarusMounts,
    pub parallax_enable: bool,
    pub parallax_imagestore: String,
    pub parallax_mount_program: String,
    pub parallax_path: String,
    pub perfmon: bool,
    pub podman_module: String,
    pub podman_path: String,
    pub podman_tmp_path: String,
    pub workdir: String,
    pub writable: bool,
}

impl EDF {
    /// Both maps of the environment keep their key invariants.
    pub open spec fn wf(&self) -> bool {
        self.annotations.wf() && self.env.wf()
    }
}

fn get_default_entrypoint() -> (r: bool)
    ensures
        r == true,
{
    true
}

fn get_default_parallax_enable() -> (r: bool)
    ensures
        r == true,
{
    true
}

fn get_default_perfmon() -> (r: bool)
    ensures
        r == false,
{
    false
}

fn get_default_writable() -> (r: bool)
    ensures
        r == true,
{
    true
}

fn get_default_podman_module() -> (r: String)
    ensures
        r@ == "hpc"@,
{
    String::from_str("hpc")
}

fn get_default_podman_path() -> (r: String)
    ensures
        r@ == "podman"@,
{
    String::from_str("podman")
}

fn get_default_podman_tmp_path() -> (r: String)
    ensures
        r@ == "/dev/shm"@,
{
    String::from_str("/dev/shm")
}

fn get_default_parallax_path() -> (r: String)
    ensures
        r@ == "parallax"@,
{
    String::from_str("parallax")
}

/// The string a still-unset optional string field falls back to.
pub open spec fn str_or(o: Option<String>, d: Seq<char>) -> Seq<char> {
    match o {
        Some(s) => s@,
        None => d,
    }
}

/// The boolean a still-unset optional boolean field falls back to.
pub open spec fn bool_or(o: Option<bool>, d: bool) -> bool {
    match o {
        Some(b) => b,
        None => d,
    }
}

/// An image that finalization must reject: unset, or set but empty — the
/// finalized environment's image is a non-empty string.
pub open spec fn missing_image(r: &RawEDF) -> bool {
    match r.image {
        None => true,
        Some(img) => img@.len() == 0,
    }
}

/// Finalize a resolved document: apply a default to every still-unset
/// field, compile the raw mount strings, and require a non-empty image.
pub fn edf_from_raw(r: RawEDF, uenv: &Option<StrMap>) -> (res: SarusResult<EDF>)
    requires
        r.wf(),
        match uenv {
            Some(m) => m.wf(),
            None => true,
        },
    ensures
        missing_image(&r) ==> (res matches Err(e) && e.code == CODE_MISSING_IMAGE),
        res matches Ok(e) ==> r.image matches Some(img) && e.image == img && e.image@.len() > 0,
        res matches Ok(e) ==> e.wf() && e.annotations@ == doc_annos(&r) && e.env@ == doc_env(&r),
        res matches Ok(e) ==> strs(e.devices) == (match r.devices {
            Some(d) => strs(d),
            None => Seq::<Seq<char>>::empty(),
        }),
        res matches Ok(e) ==> e.entrypoint == bool_or(r.entrypoint, true) && e.parallax_enable
            == bool_or(r.parallax_enable, true) && e.perfmon == bool_or(r.perfmon, false)
            && e.writable == bool_or(r.writable, true),
        res matches Ok(e) ==> e.parallax_imagestore@ == str_or(
            r.parallax_imagestore,
            Seq::empty(),
        ) && e.parallax_mount_program@ == str_or(r.parallax_mount_program, Seq::empty())
            && e.parallax_path@ == str_or(r.parallax_path, "parallax"@) && e.podman_module@
            == str_or(r.podman_module, "hpc"@) && e.podman_path@ == str_or(
            r.podman_path,
            "podman"@,
        ) && e.podman_tmp_path@ == str_or(r.podman_tmp_path, "/dev/shm"@) && e.workdir@
            == str_or(r.workdir, Seq::empty()),
        res matches Ok(e) ==> forall|i: int, j: int|
            0 <= i < j < e.mounts@.len() ==> crate::mount::mount_triple(&e.mounts@[i])
                != crate::mount::mount_triple(&e.mounts@[j]),
        res matches Ok(e) ==> (r.mounts is None ==> e.mounts@.len() == 0),
        !missing_image(&r) && r.mounts is None ==> res is Ok,
        match uenv {
            Some(m) => (match r.mounts {
                Some(ms) => !crate::mount::any_sqsh(strs(ms)) ==> (match crate::mount::mounts_spec(
                    strs(ms),
                    m@,
                ) {
                    Ok(ts) => (!missing_image(&r) ==> res is Ok) && (res matches Ok(e)
                        ==> crate::mount::mount_triples(e.mounts@) == ts),
                    Err(c) => !missing_image(&r) ==> (res matches Err(e2) && e2.code == c),
                }),
                None => true,
            }),
            None => true,
        },
{
    let mut r = r;
    let image = match r.image.take() {
        Some(s) => s,
        None => {
            return Err(
                SarusError::new(
                    CODE_MISSING_IMAGE,
                    String::from_str("missing image specification"),
                ),
            );
        },
    };
    if image.as_str().unicode_len() == 0 {
        return Err(
            SarusError::new(CODE_MISSING_IMAGE, String::from_str("missing image specification")),
        );
    }
    let annotations = match r.annotations.take() {
        Some(a) => a.as_flat_map(),
        None => StrMap::new(),
    };
    let devices = match r.devices.take() {
        Some(d) => d,
        None => {
            let empty_devices: Vec<String> = Vec::new();
            proof {
                assert(strs(empty_devices) =~= Seq::<Seq<char>>::empty());
            }
            empty_devices
        },
    };
    let env_map = match r.env.take() {
        Some(e) => e,
        None => StrMap::new(),
    };
    let mounts = match r.mounts.take() {
        Some(ms) => sarus_mounts_from_strings(ms, uenv)?,
        None => Vec::new(),
    };
    let e = EDF {
        annotations,
        devices,
        entrypoint: match r.entrypoint {
            Some(b) => b,
            None => get_default_entrypoint(),
        },
        env: env_map,
        image,
        mounts,
        parallax_enable: match r.parallax_enable {
            Some(b) => b,
            None => get_default_parallax_enable(),
        },
        parallax_imagestore: match r.parallax_imagestore.take() {
            Some(s) => s,
            None => String::new(),
        },
        parallax_mount_program: match r.parallax_mount_program.take() {
            Some(s) => s,
            None => String::new(),
        },
        parallax_path: match r.parallax_path.take() {
            Some(s) => s,
            None => get_default_parallax_path(),
        },
        perfmon: match r.perfmon {
            Some(b) => b,
            None => get_default_perfmon(),
        },
        podman_module: match r.podman_module.take() {
            Some(s) => s,
            None => get_default_podman_module(),
        },
        podman_path: match r.podman_path.take() {
            Some(s) => s,
            None => get_default_podman_path(),
        },
        podman_tmp_path: match r.podman_tmp_path.take() {
            Some(s) => s,
            None => get_default_podman_tmp_path(),
        },
        workdir: match r.workdir.take() {
            Some(s) => s,
            None => String::new(),
        },
        writable: match r.writable {
            Some(b) => b,
            None => get_default_writable(),
        },
    };
    Ok(e)
}


/// The parsed, schema-checked documents the resolver may use, keyed by the
/// file path each was loaded from, with the search paths in effect.
pub struct DocStore {
    pub search_paths: Vec<String>,
    pub docs: Vec<(String, RawEDF)>,
}

/// The first document of the list from index `i` on that is stored under
/// `path`, if any.
pub open spec fn first_doc_from(docs: Seq<(String, RawEDF)>, path: Seq<char>, i: int) -> Option<
    RawEDF,
>
    decreases docs.len() - i,
{
    if i < 0 || i >= docs.len() {
        None
    } else if docs[i].0@ == path {
        Some(docs[i].1)
    } else {
        first_doc_from(docs, path, i + 1)
    }
}

impl DocStore {
    /// Every stored document keeps its map invariants.
    pub open spec fn wf(&self) -> bool {
        forall|i: int| 0 <= i < self.docs@.len() ==> (#[trigger] self.docs@[i].1).wf()
    }

    /// The first document stored under the path, if any.
    fn lookup(&self, path: &str) -> (r: Option<&RawEDF>)
        requires
            self.wf(),
        ensures
            match r {
                Some(d) => d.wf() && first_doc_from(self.docs@, path@, 0) == Some(*d),
                None => first_doc_from(self.docs@, path@, 0) is None,
            },
    {
        let mut i: usize = 0;
        while i < self.docs.len()
            invariant
                i <= self.docs@.len(),
                self.wf(),
                first_doc_from(self.docs@, path@, 0) == first_doc_from(
                    self.docs@,
                    path@,
                    i as int,
                ),
            decreases self.docs@.len() - i,
        {
            if crate::strutil::str_eq(self.docs[i].0.as_str(), path) {
                return Some(&self.docs[i].1);
            }
            i = i + 1;
        }
        None
    }
}

/// Why resolution stopped short of a document: a file that is not yet in
/// the store and must be loaded, or a failure.
#[derive(Debug)]
pub enum ResolveHalt {
    NeedDoc(String),
    Fail(SarusError),
}

/// The depth bound on a base-environment chain, the root included.
pub const MAX_RESOLVE_DEPTH: u64 = 10;

/// The document stored under a name that is written plainly as a path:
/// for such a name both the path resolution and the store lookup are
/// deterministic, so resolution is a function of the store alone.
pub open spec fn stored_plain_doc(name: Seq<char>, store: &DocStore) -> Option<RawEDF> {
    if crate::common::plain_chars(name) && (crate::strutil::starts_with_char(name, '.')
        || crate::strutil::starts_with_char(name, '/')) {
        first_doc_from(store.docs@, name, 0)
    } else {
        None
    }
}

/// A name written plainly as a path whose stored document names the same
/// path as its single base environment: resolving it can only chase its
/// own tail until the depth bound stops it.
pub open spec fn self_referential(name: Seq<char>, store: &DocStore) -> bool {
    &&& crate::common::plain_chars(name)
    &&& crate::strutil::starts_with_char(name, '.') || crate::strutil::starts_with_char(
        name,
        '/',
    )
    &&& match first_doc_from(store.docs@, name, 0) {
        Some(d) => match d.base_environment {
            Some(BaseEnvironment::TypeString(s)) => s@ == name,
            _ => false,
        },
        None => false,
    }
}

/// Whether an expanded name is taken as a file path itself: it starts
/// with `.` or `/`, or ends in `.toml`.
pub open spec fn name_like_path(s: Seq<char>) -> bool {
    crate::strutil::starts_with_char(s, '.') || crate::strutil::starts_with_char(s, '/')
        || crate::strutil::has_suffix(s, ".toml"@)
}

/// The candidate file that one search-path entry offers for a name.
pub open spec fn cand_path(entry: Seq<char>, name: Seq<char>) -> Seq<char> {
    entry + seq!['/'] + name + ".toml"@
}

/// Find the file an environment name denotes: a name written as a path is
/// used literally; any other name is probed as `<entry>/<name>.toml`
/// against each search path in order, the first hit winning. A candidate
/// counts as present when the store already holds it or the disk has a
/// regular file under it.
pub fn resolve_env_path(
    env_name: String,
    sp: &Vec<String>,
    uenv: &Option<StrMap>,
    store: &DocStore,
) -> (r: Result<String, SarusError>)
    requires
        store.wf(),
        match uenv {
            Some(m) => m.wf(),
            None => true,
        },
    ensures
        r matches Err(e) ==> e.code == CODE_NOT_FOUND || e.code
            == crate::error::CODE_UNBOUND_VARIABLE || e.code
            == crate::error::CODE_BANNED_EXPANSION,
        crate::common::plain_chars(env_name@) && (crate::strutil::starts_with_char(
            env_name@,
            '.',
        ) || crate::strutil::starts_with_char(env_name@, '/')) && first_doc_from(
            store.docs@,
            env_name@,
            0,
        ) is Some ==> (r matches Ok(p) && p@ == env_name@),
        match uenv {
            Some(m) => (match crate::common::expand_hardened(env_name@, m@) {
                Ok(ee) => {
                    &&& name_like_path(ee) ==> (r matches Ok(p) ==> p@ == ee)
                    &&& !name_like_path(ee) ==> (r matches Ok(p) ==> exists|i: int|
                        0 <= i < sp@.len() && p@ == cand_path(#[trigger] sp@[i]@, ee))
                },
                Err(f) => r matches Err(e) && e.code == crate::mount::expand_code(f),
            }),
            None => crate::common::dollar_free(env_name@) ==> {
                &&& name_like_path(env_name@) ==> (r matches Ok(p) ==> p@ == env_name@)
                &&& !name_like_path(env_name@) ==> (r matches Ok(p) ==> exists|i: int|
                    0 <= i < sp@.len() && p@ == cand_path(#[trigger] sp@[i]@, env_name@))
            },
        },
{
    let ghost gname = env_name@;
    proof {
        if crate::common::plain_chars(gname) {
            if uenv is Some {
                crate::common::lemma_expand_plain(gname, uenv.unwrap()@);
            }
        }
    }
    let ee = match crate::common::expand_vars_string(env_name, uenv) {
        Ok(s) => s,
        Err(e) => {
            return Err(e);
        },
    };
    let eev = crate::strutil::str_to_chars(ee.as_str());
    let toml_suffix = crate::strutil::str_to_chars(".toml");
    let looks_like_path = crate::strutil::chars_start_with(&eev, '.')
        || crate::strutil::chars_start_with(&eev, '/') || crate::strutil::chars_end_with(
        &eev,
        &toml_suffix,
    );
    proof {
        if crate::common::plain_chars(gname) {
            assert(crate::common::dollar_free(gname));
            assert(ee@ == gname);
        }
    }
    if !looks_like_path {
        let mut i: usize = 0;
        while i < sp.len()
            invariant
                store.wf(),
                i <= sp@.len(),
                !(crate::common::plain_chars(env_name@) && (crate::strutil::starts_with_char(
                    env_name@,
                    '.',
                ) || crate::strutil::starts_with_char(env_name@, '/'))),
                !name_like_path(ee@),
                match uenv {
                    Some(m) => crate::common::expand_hardened(env_name@, m@) == Ok::<
                        Seq<char>,
                        crate::common::ExpandFailure,
                    >(ee@),
                    None => crate::common::dollar_free(env_name@) ==> ee@ == env_name@,
                },
            decreases sp@.len() - i,
        {
            let mut cand: Vec<char> = Vec::new();
            crate::strutil::push_str_chars(&mut cand, sp[i].as_str());
            cand.push('/');
            crate::strutil::push_str_chars(&mut cand, ee.as_str());
            crate::strutil::push_str_chars(&mut cand, ".toml");
            let cand_s = chars_to_string(&cand);
            proof {
                assert(cand@ =~= cand_path(sp@[i as int]@, ee@));
            }
            if store.lookup(cand_s.as_str()).is_some() || crate::fsinfo::path_is_regular(
                &cand_s,
            ) {
                return Ok(cand_s);
            }
            i = i + 1;
        }
    } else {
        if store.lookup(ee.as_str()).is_some() || crate::fsinfo::path_is_regular(&ee) {
            return Ok(ee);
        }
    }
    let mut msg: Vec<char> = Vec::new();
    crate::strutil::push_str_chars(&mut msg, "environment ");
    crate::strutil::push_str_chars(&mut msg, ee.as_str());
    crate::strutil::push_str_chars(&mut msg, " not found at ");
    let mut j: usize = 0;
    while j < sp.len()
        decreases sp@.len() - j,
    {
        if j > 0 {
            msg.push(',');
        }
        crate::strutil::push_str_chars(&mut msg, sp[j].as_str());
        j = j + 1;
    }
    Err(SarusError::new(CODE_NOT_FOUND, chars_to_string(&msg)))
}

/// The string lists of an optional list field.
pub open spec fn opt_strs(o: Option<Vec<String>>) -> Option<Seq<Seq<char>>> {
    match o {
        None => None,
        Some(v) => Some(strs(v)),
    }
}

/// Two optional lists merged: the second side's entries after the first's.
pub open spec fn merged_list(a: Option<Seq<Seq<char>>>, b: Option<Seq<Seq<char>>>) -> Option<
    Seq<Seq<char>>,
> {
    match b {
        None => a,
        Some(d) => match a {
            None => Some(d),
            Some(x) => Some(x + d),
        },
    }
}

/// The map with every value of `m0` expanded under `env`; meaningful on
/// maps whose values all expand.
pub open spec fn expanded_map(
    m0: Map<Seq<char>, Seq<char>>,
    env: Map<Seq<char>, Seq<char>>,
) -> Map<Seq<char>, Seq<char>> {
    Map::new(
        |k: Seq<char>| m0.dom().contains(k),
        |k: Seq<char>| crate::common::expand_hardened(m0[k], env)->Ok_0,
    )
}

/// The expanded devices of a document, as an optional list.
pub open spec fn expanded_devices(d: &RawEDF, env: Map<Seq<char>, Seq<char>>) -> Option<
    Seq<Seq<char>>,
> {
    match d.devices {
        None => None,
        Some(v) => Some(
            crate::strutil::dedup_seq(crate::common::expand_all(strs(v), env)->Ok_0),
        ),
    }
}

/// A one-link base chain under `name`: the stored document names exactly
/// one base, written plainly as a path, whose own stored document has no
/// base and expands under `env`.
pub open spec fn one_link_chain(name: Seq<char>, store: &DocStore, env: Map<Seq<char>, Seq<char>>) -> bool {
    match stored_plain_doc(name, store) {
        Some(c) => match c.base_environment {
            Some(BaseEnvironment::TypeString(b)) => match stored_plain_doc(b@, store) {
                Some(bd) => bd.base_environment is None && doc_expands_ok(&bd, env),
                None => false,
            },
            _ => false,
        },
        None => false,
    }
}

/// The base name of a one-link chain.
pub open spec fn chain_base_name(name: Seq<char>, store: &DocStore) -> Seq<char> {
    (stored_plain_doc(name, store)->Some_0.base_environment->Some_0)->TypeString_0@
}

/// The base document of a one-link chain.
pub open spec fn chain_base_doc(name: Seq<char>, store: &DocStore) -> RawEDF {
    stored_plain_doc(chain_base_name(name, store), store)->Some_0
}

/// The merge of a resolved base into its child, before the final
/// expansion pass: scalars right-biased, lists base-then-child, the maps
/// unioned with the child winning, the base's fields already expanded.
pub open spec fn pre_merged(
    bd: &RawEDF,
    c: &RawEDF,
    m: &RawEDF,
    env: Map<Seq<char>, Seq<char>>,
) -> bool {
    &&& m.base_environment is None
    &&& m.image == (if c.image is Some {
        c.image
    } else {
        bd.image
    })
    &&& m.entrypoint == (if c.entrypoint is Some {
        c.entrypoint
    } else {
        bd.entrypoint
    })
    &&& m.parallax_enable == (if c.parallax_enable is Some {
        c.parallax_enable
    } else {
        bd.parallax_enable
    })
    &&& m.perfmon == (if c.perfmon is Some {
        c.perfmon
    } else {
        bd.perfmon
    })
    &&& m.writable == (if c.writable is Some {
        c.writable
    } else {
        bd.writable
    })
    &&& opt_strs(m.mounts) == merged_list(opt_strs(bd.mounts), opt_strs(c.mounts))
    &&& opt_strs(m.devices) == merged_list(expanded_devices(bd, env), opt_strs(c.devices))
    &&& (bd.env is None && c.env is None) ==> m.env is None
    &&& (bd.env is Some || c.env is Some) ==> m.env is Some
    &&& doc_env(m) == expanded_map(doc_env(bd), env).union_prefer_right(doc_env(c))
    &&& (bd.annotations is None && c.annotations is None) ==> m.annotations is None
    &&& (bd.annotations is Some || c.annotations is Some) ==> (m.annotations matches Some(a2)
        && a2 matches Annotations::TypeHashMap(_))
    &&& doc_annos(m) == expanded_map(doc_annos(bd), env).union_prefer_right(doc_annos(c))
}

/// What resolving a one-link chain produces, stated over the two stored
/// documents: the merged document of `pre_merged`, expanded once more.
pub open spec fn chain_merged(
    bd: &RawEDF,
    c: &RawEDF,
    out: &RawEDF,
    env: Map<Seq<char>, Seq<char>>,
) -> bool {
    exists|m: RawEDF| #[trigger] pre_merged(bd, c, &m, env) && expanded_of(&m, out, env)
}

/// A one-link base chain whose two documents are both dollar-free, so
/// that ambient expansion cannot change any field.
pub open spec fn one_link_chain_plain(name: Seq<char>, store: &DocStore) -> bool {
    match stored_plain_doc(name, store) {
        Some(c) => match c.base_environment {
            Some(BaseEnvironment::TypeString(b)) => match stored_plain_doc(b@, store) {
                Some(bd) => bd.base_environment is None && doc_dollar_free(&bd)
                    && doc_dollar_free(&c),
                None => false,
            },
            _ => false,
        },
        None => false,
    }
}

/// The merge of a dollar-free base into its dollar-free child: scalars
/// right-biased, lists base-then-child, the maps unioned with the child
/// winning; ambient expansion leaves every value as it is.
pub open spec fn pre_merged_plain(bd: &RawEDF, c: &RawEDF, m: &RawEDF) -> bool {
    &&& m.base_environment is None
    &&& m.image == (if c.image is Some {
        c.image
    } else {
        bd.image
    })
    &&& m.entrypoint == (if c.entrypoint is Some {
        c.entrypoint
    } else {
        bd.entrypoint
    })
    &&& m.parallax_enable == (if c.parallax_enable is Some {
        c.parallax_enable
    } else {
        bd.parallax_enable
    })
    &&& m.perfmon == (if c.perfmon is Some {
        c.perfmon
    } else {
        bd.perfmon
    })
    &&& m.writable == (if c.writable is Some {
        c.writable
    } else {
        bd.writable
    })
    &&& opt_strs(m.mounts) == merged_list(opt_strs(bd.mounts), opt_strs(c.mounts))
    &&& opt_strs(m.devices) == merged_list(
        match bd.devices {
            None => None,
            Some(v) => Some(crate::strutil::dedup_seq(strs(v))),
        },
        opt_strs(c.devices),
    )
    &&& (bd.env is None && c.env is None) ==> m.env is None
    &&& (bd.env is Some || c.env is Some) ==> m.env is Some
    &&& doc_env(m) == doc_env(bd).union_prefer_right(doc_env(c))
    &&& (bd.annotations is None && c.annotations is None) ==> m.annotations is None
    &&& (bd.annotations is Some || c.annotations is Some) ==> (m.annotations matches Some(a2)
        && a2 matches Annotations::TypeHashMap(_))
    &&& doc_annos(m) == doc_annos(bd).union_prefer_right(doc_annos(c))
}

/// What resolving a dollar-free one-link chain under the ambient
/// environment produces: the merged document, kept as it is by the final
/// expansion pass.
pub open spec fn chain_merged_plain(bd: &RawEDF, c: &RawEDF, out: &RawEDF) -> bool {
    exists|m: RawEDF| #[trigger] pre_merged_plain(bd, c, &m) && ambient_kept(&m, out)
}

/// Resolve one environment name: find its document, resolve and merge its
/// base chain depth-first, and expand every field. `count` is the number
/// of documents already open in this chain.
pub fn render_inner_loop(
    name: String,
    sp: &Vec<String>,
    env: &Option<StrMap>,
    count: u64,
    max: u64,
    store: &DocStore,
) -> (r: Result<RawEDF, ResolveHalt>)
    requires
        store.wf(),
        match env {
            Some(m) => m.wf(),
            None => true,
        },
    ensures
        count >= max ==> (r matches Err(ResolveHalt::Fail(e)) && e.code == CODE_TOO_DEEP),
        self_referential(name@, store) ==> (r matches Err(ResolveHalt::Fail(e)) && e.code
            == CODE_TOO_DEEP),
        match env {
            Some(m) => {
                &&& (match stored_plain_doc(name@, store) {
                    Some(d) => (count < max && d.base_environment is None) ==> {
                        &&& r matches Ok(out) ==> expanded_of(&d, &out, m@)
                        &&& doc_expands_ok(&d, m@) ==> r is Ok
                    },
                    None => true,
                })
                &&& (count + 1 < max && one_link_chain(name@, store, m@)) ==> (r matches Ok(out)
                    ==> chain_merged(
                    &chain_base_doc(name@, store),
                    &stored_plain_doc(name@, store)->Some_0,
                    &out,
                    m@,
                ))
            },
            None => {
                &&& (match stored_plain_doc(name@, store) {
                    Some(d) => (count < max && d.base_environment is None && doc_dollar_free(
                        &d,
                    )) ==> (r matches Ok(out) && ambient_kept(&d, &out)),
                    None => true,
                })
                &&& (count + 1 < max && one_link_chain_plain(name@, store)) ==> (r matches Ok(
                    out,
                ) && chain_merged_plain(
                    &chain_base_doc(name@, store),
                    &stored_plain_doc(name@, store)->Some_0,
                    &out,
                ))
            },
        },
        r matches Ok(d) ==> d.wf() && d.base_environment is None,
        r matches Ok(d) ==> (match d.devices {
            Some(v) => distinct_strs(v),
            None => true,
        }),
        r matches Err(ResolveHalt::Fail(e)) ==> e.code == CODE_TOO_DEEP || e.code
            == CODE_NOT_FOUND || e.code == crate::error::CODE_UNBOUND_VARIABLE || e.code
            == crate::error::CODE_BANNED_EXPANSION,
    decreases max - count,
{
    let ghost gname = name@;
    if count >= max {
        let mut msg: Vec<char> = Vec::new();
        crate::strutil::push_str_chars(&mut msg, "base_environment rendering has more than ");
        let digits = crate::strutil::u64_to_dec(max);
        crate::strutil::push_str_chars(&mut msg, digits.as_str());
        crate::strutil::push_str_chars(&mut msg, " levels");
        return Err(ResolveHalt::Fail(SarusError::new(CODE_TOO_DEEP, chars_to_string(&msg))));
    }
    let count2 = count + 1;
    let edf_path = match resolve_env_path(name, sp, env, store) {
        Ok(p) => p,
        Err(e) => {
            return Err(ResolveHalt::Fail(e));
        },
    };
    let found = match store.lookup(edf_path.as_str()) {
        Some(d) => d,
        None => {
            return Err(ResolveHalt::NeedDoc(edf_path));
        },
    };
    let mut cur = found.duplicate();
    let ghost dup0 = cur;
    match cur.base_environment.take() {
        Some(be) => {
            let ba: Vec<String> = match be {
                BaseEnvironment::TypeString(s) => {
                    let mut v: Vec<String> = Vec::new();
                    v.push(s);
                    v
                },
                BaseEnvironment::TypeVec(a) => a,
            };
            let mut base_redf = RawEDF::default();
            let mut i: usize = 0;
            proof {
                if env is Some && count + 1 < max && one_link_chain(
                    gname,
                    store,
                    env.unwrap()@,
                ) {
                    assert(ba@.len() == 1);
                    assert(ba@[0]@ == chain_base_name(gname, store));
                }
                if env is None && count + 1 < max && one_link_chain_plain(gname, store) {
                    assert(ba@.len() == 1);
                    assert(ba@[0]@ == chain_base_name(gname, store));
                }
            }
            while i < ba.len()
                invariant
                    i <= ba@.len(),
                    base_redf.wf(),
                    base_redf.base_environment is None,
                    store.wf(),
                    match env {
                        Some(m) => m.wf(),
                        None => true,
                    },
                    count < max,
                    count2 == count + 1,
                    self_referential(gname, store) ==> i == 0 && ba@.len() >= 1 && ba@[0]@
                        == gname,
                    gname == name@,
                    match stored_plain_doc(gname, store) {
                        Some(d) => d.base_environment is Some,
                        None => true,
                    },
                    i == 0 ==> base_redf.annotations is None && base_redf.devices is None
                        && base_redf.env is None && base_redf.mounts is None
                        && base_redf.image is None && base_redf.entrypoint is None
                        && base_redf.parallax_enable is None && base_redf.perfmon is None
                        && base_redf.writable is None && base_redf.engine is None
                        && base_redf.parallax_imagestore is None
                        && base_redf.parallax_path is None
                        && base_redf.parallax_mount_program is None
                        && base_redf.podman_module is None && base_redf.podman_path is None
                        && base_redf.podman_tmp_path is None && base_redf.workdir is None,
                    match env {
                        Some(m) => (count + 1 < max && one_link_chain(gname, store, m@)) ==> {
                            &&& ba@.len() == 1
                            &&& ba@[0]@ == chain_base_name(gname, store)
                            &&& i == 1 ==> expanded_of(
                                &chain_base_doc(gname, store),
                                &base_redf,
                                m@,
                            )
                        },
                        None => (count + 1 < max && one_link_chain_plain(gname, store)) ==> {
                            &&& ba@.len() == 1
                            &&& ba@[0]@ == chain_base_name(gname, store)
                            &&& i == 1 ==> ambient_kept(&chain_base_doc(gname, store), &base_redf)
                        },
                    },
                decreases ba@.len() - i,
            {
                let b = ba[i].clone();
                let resolved = render_inner_loop(b, sp, env, count2, max, store)?;
                let ghost rsv = resolved;
                base_redf.extend(&resolved);
                i = i + 1;
                proof {
                    if env is Some && count + 1 < max && one_link_chain(
                        gname,
                        store,
                        env.unwrap()@,
                    ) {
                        let menv = env.unwrap()@;
                        let bd = chain_base_doc(gname, store);
                        assert(expanded_of(&bd, &rsv, menv));
                        assert(Map::<Seq<char>, Seq<char>>::empty().union_prefer_right(
                            doc_env(&rsv),
                        ) =~= doc_env(&rsv));
                        assert(Map::<Seq<char>, Seq<char>>::empty().union_prefer_right(
                            doc_annos(&rsv),
                        ) =~= doc_annos(&rsv));
                        if bd.annotations is Some {
                            assert(base_redf.annotations matches Some(a2) && (a2 matches
                                Annotations::TypeHashMap(h) && h@ == doc_annos(&rsv)));
                        }
                        assert(expanded_of(&bd, &base_redf, menv));
                    }
                    if env is None && count + 1 < max && one_link_chain_plain(gname, store) {
                        let bd = chain_base_doc(gname, store);
                        assert(ambient_kept(&bd, &rsv));
                        assert(Map::<Seq<char>, Seq<char>>::empty().union_prefer_right(
                            doc_env(&rsv),
                        ) =~= doc_env(&rsv));
                        assert(Map::<Seq<char>, Seq<char>>::empty().union_prefer_right(
                            doc_annos(&rsv),
                        ) =~= doc_annos(&rsv));
                        if bd.annotations is Some {
                            assert(base_redf.annotations matches Some(a2) && (a2 matches
                                Annotations::TypeHashMap(h) && h@ == doc_annos(&rsv)));
                        }
                        assert(ambient_kept(&bd, &base_redf));
                    }
                }
            }
            let ghost acc = base_redf;
            base_redf.extend(&cur);
            proof {
                if env is Some && count + 1 < max && one_link_chain(
                    gname,
                    store,
                    env.unwrap()@,
                ) {
                    let menv = env.unwrap()@;
                    let bd = chain_base_doc(gname, store);
                    let cc = stored_plain_doc(gname, store)->Some_0;
                    assert(expanded_of(&bd, &acc, menv));
                    assert(doc_env(&acc) =~= expanded_map(doc_env(&bd), menv));
                    assert(doc_annos(&acc) =~= expanded_map(doc_annos(&bd), menv));
                    assert(doc_env(&base_redf) =~= expanded_map(
                        doc_env(&bd),
                        menv,
                    ).union_prefer_right(doc_env(&cc))) by {
                        if cur.env is None {
                            assert(doc_env(&cc) =~= Map::<Seq<char>, Seq<char>>::empty());
                            assert(doc_env(&base_redf) == doc_env(&acc));
                            assert(expanded_map(doc_env(&bd), menv).union_prefer_right(
                                Map::<Seq<char>, Seq<char>>::empty(),
                            ) =~= expanded_map(doc_env(&bd), menv));
                        } else {
                            assert(doc_env(&cur) == doc_env(&cc));
                        }
                    }
                    assert(doc_annos(&base_redf) =~= expanded_map(
                        doc_annos(&bd),
                        menv,
                    ).union_prefer_right(doc_annos(&cc))) by {
                        if cur.annotations is None {
                            assert(doc_annos(&cc) =~= Map::<Seq<char>, Seq<char>>::empty());
                            assert(doc_annos(&base_redf) == doc_annos(&acc));
                            assert(expanded_map(doc_annos(&bd), menv).union_prefer_right(
                                Map::<Seq<char>, Seq<char>>::empty(),
                            ) =~= expanded_map(doc_annos(&bd), menv));
                        } else {
                            assert(doc_annos(&cur) == doc_annos(&cc));
                        }
                    }
                    assert(opt_strs(base_redf.mounts) == merged_list(
                        opt_strs(bd.mounts),
                        opt_strs(cc.mounts),
                    ));
                    assert(opt_strs(base_redf.devices) == merged_list(
                        expanded_devices(&bd, menv),
                        opt_strs(cc.devices),
                    ));
                    assert(pre_merged(&bd, &cc, &base_redf, menv));
                }
                if env is None && count + 1 < max && one_link_chain_plain(gname, store) {
                    let bd = chain_base_doc(gname, store);
                    let cc = stored_plain_doc(gname, store)->Some_0;
                    assert(ambient_kept(&bd, &acc));
                    assert(doc_env(&acc) == doc_env(&bd));
                    assert(doc_annos(&acc) == doc_annos(&bd));
                    assert(doc_env(&base_redf) =~= doc_env(&bd).union_prefer_right(
                        doc_env(&cc),
                    )) by {
                        if cur.env is None {
                            assert(doc_env(&cc) =~= Map::<Seq<char>, Seq<char>>::empty());
                            assert(doc_env(&base_redf) == doc_env(&acc));
                        } else {
                            assert(doc_env(&cur) == doc_env(&cc));
                        }
                    }
                    assert(doc_annos(&base_redf) =~= doc_annos(&bd).union_prefer_right(
                        doc_annos(&cc),
                    )) by {
                        if cur.annotations is None {
                            assert(doc_annos(&cc) =~= Map::<Seq<char>, Seq<char>>::empty());
                            assert(doc_annos(&base_redf) == doc_annos(&acc));
                        } else {
                            assert(doc_annos(&cur) == doc_annos(&cc));
                        }
                    }
                    assert(opt_strs(base_redf.mounts) == merged_list(
                        opt_strs(bd.mounts),
                        opt_strs(cc.mounts),
                    ));
                    assert(opt_strs(base_redf.devices) == merged_list(
                        match bd.devices {
                            None => None,
                            Some(v) => Some(crate::strutil::dedup_seq(strs(v))),
                        },
                        opt_strs(cc.devices),
                    ));
                    assert(pre_merged_plain(&bd, &cc, &base_redf));
                    assert forall|k: Seq<char>|
                        #[trigger] doc_env(&base_redf).dom().contains(
                        k,
                    ) implies crate::common::dollar_free(doc_env(&base_redf)[k]) by {
                        if doc_env(&cc).dom().contains(k) {
                            assert(crate::common::dollar_free(doc_env(&cc)[k]));
                        } else {
                            assert(doc_env(&bd).dom().contains(k));
                            assert(crate::common::dollar_free(doc_env(&bd)[k]));
                        }
                    }
                    assert forall|k: Seq<char>|
                        #[trigger] doc_annos(&base_redf).dom().contains(
                        k,
                    ) implies crate::common::dollar_free(doc_annos(&base_redf)[k]) by {
                        if doc_annos(&cc).dom().contains(k) {
                            assert(crate::common::dollar_free(doc_annos(&cc)[k]));
                        } else {
                            assert(doc_annos(&bd).dom().contains(k));
                            assert(crate::common::dollar_free(doc_annos(&bd)[k]));
                        }
                    }
                    let ghost merged_devs = base_redf.devices;
                    match merged_devs {
                        Some(v2) => {
                            assert forall|k: int|
                                0 <= k < v2@.len() implies crate::common::dollar_free(
                                #[trigger] v2@[k]@,
                            ) by {
                                let xs = strs(v2);
                                assert(xs[k] == v2@[k]@);
                                match bd.devices {
                                    Some(vb) => {
                                        crate::strutil::lemma_dedup_seq_props(strs(vb));
                                        let db = crate::strutil::dedup_seq(strs(vb));
                                        match cc.devices {
                                            Some(vc) => {
                                                assert(xs == db + strs(vc));
                                                if k < db.len() {
                                                    assert(xs[k] == db[k]);
                                                    assert(db.contains(db[k]));
                                                    assert(strs(vb).contains(db[k]));
                                                    let j = choose|j: int|
                                                        0 <= j < strs(vb).len() && strs(vb)[j]
                                                            == db[k];
                                                    assert(strs(vb)[j] == vb@[j]@);
                                                } else {
                                                    assert(xs[k] == strs(vc)[k - db.len()]);
                                                    assert(strs(vc)[k - db.len()] == vc@[k
                                                        - db.len()]@);
                                                }
                                            },
                                            None => {
                                                assert(xs == db);
                                                assert(xs[k] == db[k]);
                                                assert(db.contains(db[k]));
                                                assert(strs(vb).contains(db[k]));
                                                let j = choose|j: int|
                                                    0 <= j < strs(vb).len() && strs(vb)[j]
                                                        == db[k];
                                                assert(strs(vb)[j] == vb@[j]@);
                                            },
                                        }
                                    },
                                    None => {
                                        match cc.devices {
                                            Some(vc) => {
                                                assert(xs == strs(vc));
                                                assert(xs[k] == strs(vc)[k]);
                                                assert(strs(vc)[k] == vc@[k]@);
                                            },
                                            None => {
                                                assert(merged_devs is None);
                                            },
                                        }
                                    },
                                }
                            }
                        },
                        None => {},
                    }
                    assert(doc_dollar_free(&base_redf));
                }
            }
            cur = base_redf;
        },
        None => {},
    }
    let ghost pre_expand = cur;
    match cur.expand_fields(env) {
        Ok(d) => {
            proof {
                if env is Some && count + 1 < max && one_link_chain(
                    gname,
                    store,
                    env.unwrap()@,
                ) {
                    let menv = env.unwrap()@;
                    let bd = chain_base_doc(gname, store);
                    let cc = stored_plain_doc(gname, store)->Some_0;
                    assert(pre_merged(&bd, &cc, &pre_expand, menv));
                    assert(expanded_of(&pre_expand, &d, menv));
                    assert(chain_merged(&bd, &cc, &d, menv));
                }
                if env is None && count + 1 < max && one_link_chain_plain(gname, store) {
                    let bd = chain_base_doc(gname, store);
                    let cc = stored_plain_doc(gname, store)->Some_0;
                    assert(pre_merged_plain(&bd, &cc, &pre_expand));
                    assert(ambient_kept(&pre_expand, &d));
                    assert(chain_merged_plain(&bd, &cc, &d));
                }
                if stored_plain_doc(gname, store) is Some {
                    let sd = stored_plain_doc(gname, store)->Some_0;
                    if sd.base_environment is None {
                        assert(pre_expand == dup0);
                        if env is Some {
                            assert(expanded_of(&sd, &d, env.unwrap()@));
                        } else {
                            if doc_dollar_free(&sd) {
                                assert(doc_env(&pre_expand) == doc_env(&sd));
                                assert(doc_annos(&pre_expand) == doc_annos(&sd));
                                match pre_expand.devices {
                                    Some(v2) => {
                                        let v = sd.devices->Some_0;
                                        assert forall|k: int|
                                            0 <= k < v2@.len() implies crate::common::dollar_free(
                                            #[trigger] v2@[k]@,
                                        ) by {
                                            assert(strs(v2) == strs(v));
                                            assert(k < strs(v).len());
                                            assert(strs(v2)[k] == v2@[k]@);
                                            assert(strs(v)[k] == v@[k]@);
                                            assert(crate::common::dollar_free(v@[k]@));
                                        }
                                    },
                                    None => {},
                                }
                                assert forall|k: Seq<char>|
                                    #[trigger] doc_env(&pre_expand).dom().contains(
                                    k,
                                ) implies crate::common::dollar_free(
                                    doc_env(&pre_expand)[k],
                                ) by {
                                    assert(doc_env(&sd).dom().contains(k));
                                }
                                assert forall|k: Seq<char>|
                                    #[trigger] doc_annos(&pre_expand).dom().contains(
                                    k,
                                ) implies crate::common::dollar_free(
                                    doc_annos(&pre_expand)[k],
                                ) by {
                                    assert(doc_annos(&sd).dom().contains(k));
                                }
                                assert(doc_dollar_free(&pre_expand));
                                assert(ambient_kept(&sd, &d));
                            }
                        }
                    }
                }
            }
            Ok(d)
        },
        Err(e) => {
            proof {
                if env is None && count + 1 < max && one_link_chain_plain(gname, store) {
                    assert(doc_dollar_free(&pre_expand));
                    assert(false);
                }
                if stored_plain_doc(gname, store) is Some {
                    let sd = stored_plain_doc(gname, store)->Some_0;
                    if sd.base_environment is None {
                        assert(pre_expand == dup0);
                        if env is Some {
                            if doc_expands_ok(&sd, env.unwrap()@) {
                                assert(doc_expands_ok(&pre_expand, env.unwrap()@));
                                assert(false);
                            }
                        } else {
                            if doc_dollar_free(&sd) {
                                assert(doc_env(&pre_expand) == doc_env(&sd));
                                assert(doc_annos(&pre_expand) == doc_annos(&sd));
                                match pre_expand.devices {
                                    Some(v2) => {
                                        let v = sd.devices->Some_0;
                                        assert forall|k: int|
                                            0 <= k < v2@.len() implies crate::common::dollar_free(
                                            #[trigger] v2@[k]@,
                                        ) by {
                                            assert(strs(v2) == strs(v));
                                            assert(k < strs(v).len());
                                            assert(strs(v2)[k] == v2@[k]@);
                                            assert(strs(v)[k] == v@[k]@);
                                            assert(crate::common::dollar_free(v@[k]@));
                                        }
                                    },
                                    None => {},
                                }
                                assert forall|k: Seq<char>|
                                    #[trigger] doc_env(&pre_expand).dom().contains(
                                    k,
                                ) implies crate::common::dollar_free(
                                    doc_env(&pre_expand)[k],
                                ) by {
                                    assert(doc_env(&sd).dom().contains(k));
                                }
                                assert forall|k: Seq<char>|
                                    #[trigger] doc_annos(&pre_expand).dom().contains(
                                    k,
                                ) implies crate::common::dollar_free(
                                    doc_annos(&pre_expand)[k],
                                ) by {
                                    assert(doc_annos(&sd).dom().contains(k));
                                }
                                assert(doc_dollar_free(&pre_expand));
                                assert(false);
                            }
                        }
                    }
                }
            }
            Err(ResolveHalt::Fail(e))
        },
    }
}

impl RawEDF {
    /// An owned copy of the document; a nested annotations table is
    /// flattened in passing, which `anno_map` treats as the same value.
    pub fn duplicate(&self) -> (r: RawEDF)
        requires
            self.wf(),
        ensures
            r.wf(),
            doc_annos(&r) == doc_annos(self),
            r.annotations is Some <==> self.annotations is Some,
            r.base_environment is None <==> self.base_environment is None,
            match self.base_environment {
                None => r.base_environment is None,
                Some(BaseEnvironment::TypeString(s)) => r.base_environment matches Some(
                    BaseEnvironment::TypeString(s2),
                ) && s2 == s,
                Some(BaseEnvironment::TypeVec(v)) => r.base_environment matches Some(
                    BaseEnvironment::TypeVec(v2),
                ) && strs(v2) == strs(v),
            },
            match self.devices {
                None => r.devices is None,
                Some(v) => r.devices matches Some(v2) && strs(v2) == strs(v),
            },
            match self.mounts {
                None => r.mounts is None,
                Some(v) => r.mounts matches Some(v2) && strs(v2) == strs(v),
            },
            doc_env(&r) == doc_env(self),
            r.env is Some <==> self.env is Some,
            r.entrypoint == self.entrypoint,
            r.engine == self.engine,
            r.image == self.image,
            r.parallax_enable == self.parallax_enable,
            r.parallax_imagestore == self.parallax_imagestore,
            r.parallax_path == self.parallax_path,
            r.parallax_mount_program == self.parallax_mount_program,
            r.perfmon == self.perfmon,
            r.podman_module == self.podman_module,
            r.podman_path == self.podman_path,
            r.podman_tmp_path == self.podman_tmp_path,
            r.workdir == self.workdir,
            r.writable == self.writable,
    {
        RawEDF {
            annotations: match &self.annotations {
                Some(a) => Some(Annotations::TypeHashMap(a.as_flat_map())),
                None => None,
            },
            base_environment: match &self.base_environment {
                Some(BaseEnvironment::TypeString(s)) => Some(
                    BaseEnvironment::TypeString(s.clone()),
                ),
                Some(BaseEnvironment::TypeVec(v)) => Some(
                    BaseEnvironment::TypeVec(copy_strings(v)),
                ),
                None => None,
            },
            devices: match &self.devices {
                Some(v) => Some(copy_strings(v)),
                None => None,
            },
            entrypoint: self.entrypoint,
            env: match &self.env {
                Some(e) => Some(e.duplicate()),
                None => None,
            },
            engine: clone_opt_string(&self.engine),
            image: clone_opt_string(&self.image),
            mounts: match &self.mounts {
                Some(v) => Some(copy_strings(v)),
                None => None,
            },
            parallax_enable: self.parallax_enable,
            parallax_imagestore: clone_opt_string(&self.parallax_imagestore),
            parallax_path: clone_opt_string(&self.parallax_path),
            parallax_mount_program: clone_opt_string(&self.parallax_mount_program),
            perfmon: self.perfmon,
            podman_module: clone_opt_string(&self.podman_module),
            podman_path: clone_opt_string(&self.podman_path),
            podman_tmp_path: clone_opt_string(&self.podman_tmp_path),
            workdir: clone_opt_string(&self.workdir),
            writable: self.writable,
        }
    }
}

fn clone_opt_string(o: &Option<String>) -> (r: Option<String>)
    ensures
        r == *o,
{
    match o {
        Some(s) => Some(s.clone()),
        None => None,
    }
}

/// The image a one-link chain finalizes with: the child's if set, else
/// the base's.
pub open spec fn chain_image(bd: &RawEDF, c: &RawEDF) -> Option<String> {
    if c.image is Some {
        c.image
    } else {
        bd.image
    }
}

/// A one-link chain that finalization must accept: a non-empty image and
/// no mounts on either side.
pub open spec fn chain_finalizable(bd: &RawEDF, c: &RawEDF) -> bool {
    &&& chain_image(bd, c) matches Some(img) && img@.len() > 0
    &&& bd.mounts is None
    &&& c.mounts is None
}

/// An optional string field's expansion, or the default where unset.
pub open spec fn opt_exp_or(
    o: Option<String>,
    env: Map<Seq<char>, Seq<char>>,
    dflt: Seq<char>,
) -> Seq<char> {
    match o {
        Some(s) => crate::common::expand_hardened(s@, env)->Ok_0,
        None => dflt,
    }
}

/// What rendering owes for a stored document with no base environment and
/// no mounts under an explicit environment: resolution is `ExpandFields`
/// and finalization fills the defaults.
pub open spec fn finalized_expanded(d: &RawEDF, e: &EDF, env: Map<Seq<char>, Seq<char>>) -> bool {
    &&& e.image == d.image->Some_0
    &&& e.entrypoint == bool_or(d.entrypoint, true)
    &&& e.parallax_enable == bool_or(d.parallax_enable, true)
    &&& e.perfmon == bool_or(d.perfmon, false)
    &&& e.writable == bool_or(d.writable, true)
    &&& e.mounts@.len() == 0
    &&& strs(e.devices) == (match d.devices {
        None => Seq::<Seq<char>>::empty(),
        Some(v) => crate::strutil::dedup_seq(crate::common::expand_all(strs(v), env)->Ok_0),
    })
    &&& e.env@.dom() == doc_env(d).dom()
    &&& forall|k: Seq<char>|
        #[trigger] doc_env(d).dom().contains(k) ==> e.env@[k] == crate::common::expand_hardened(
            doc_env(d)[k],
            env,
        )->Ok_0
    &&& e.annotations@.dom() == doc_annos(d).dom()
    &&& forall|k: Seq<char>|
        #[trigger] doc_annos(d).dom().contains(k) ==> e.annotations@[k]
            == crate::common::expand_hardened(doc_annos(d)[k], env)->Ok_0
    &&& e.workdir@ == opt_exp_or(d.workdir, env, Seq::empty())
    &&& e.parallax_imagestore@ == opt_exp_or(d.parallax_imagestore, env, Seq::empty())
    &&& e.parallax_mount_program@ == opt_exp_or(d.parallax_mount_program, env, Seq::empty())
    &&& e.parallax_path@ == opt_exp_or(d.parallax_path, env, "parallax"@)
    &&& e.podman_module@ == opt_exp_or(d.podman_module, env, "hpc"@)
    &&& e.podman_path@ == opt_exp_or(d.podman_path, env, "podman"@)
    &&& e.podman_tmp_path@ == opt_exp_or(d.podman_tmp_path, env, "/dev/shm"@)
}

/// What rendering owes for a stored dollar-free document with no base
/// environment and no mounts under the ambient environment: every field
/// kept, devices deduplicated, defaults filled.
pub open spec fn finalized_plain(d: &RawEDF, e: &EDF) -> bool {
    &&& e.image == d.image->Some_0
    &&& e.entrypoint == bool_or(d.entrypoint, true)
    &&& e.parallax_enable == bool_or(d.parallax_enable, true)
    &&& e.perfmon == bool_or(d.perfmon, false)
    &&& e.writable == bool_or(d.writable, true)
    &&& e.mounts@.len() == 0
    &&& strs(e.devices) == (match d.devices {
        None => Seq::<Seq<char>>::empty(),
        Some(v) => crate::strutil::dedup_seq(strs(v)),
    })
    &&& e.env@ == doc_env(d)
    &&& e.annotations@ == doc_annos(d)
    &&& e.workdir@ == str_or(d.workdir, Seq::empty())
    &&& e.parallax_imagestore@ == str_or(d.parallax_imagestore, Seq::empty())
    &&& e.parallax_mount_program@ == str_or(d.parallax_mount_program, Seq::empty())
    &&& e.parallax_path@ == str_or(d.parallax_path, "parallax"@)
    &&& e.podman_module@ == str_or(d.podman_module, "hpc"@)
    &&& e.podman_path@ == str_or(d.podman_path, "podman"@)
    &&& e.podman_tmp_path@ == str_or(d.podman_tmp_path, "/dev/shm"@)
}

/// Resolve an environment name against explicit search paths and finalize
/// the result.
pub fn render_from_search_paths(
    path: String,
    search_paths: Vec<String>,
    env: &Option<StrMap>,
    store: &DocStore,
) -> (r: Result<EDF, ResolveHalt>)
    requires
        store.wf(),
        match env {
            Some(m) => m.wf(),
            None => true,
        },
    ensures
        r matches Ok(e) ==> e.wf(),
        r matches Ok(e) ==> (forall|i: int, j: int|
            0 <= i < j < strs(e.devices).len() ==> strs(e.devices)[i] != strs(e.devices)[j]),
        r matches Ok(e) ==> (forall|i: int, j: int|
            0 <= i < j < e.mounts@.len() ==> crate::mount::mount_triple(&e.mounts@[i])
                != crate::mount::mount_triple(&e.mounts@[j])),
        self_referential(path@, store) ==> (r matches Err(ResolveHalt::Fail(e)) && e.code
            == CODE_TOO_DEEP),
        match env {
            Some(m) => {
                &&& (match stored_plain_doc(path@, store) {
                    Some(d) => (d.base_environment is None && doc_expands_ok(&d, m@)
                        && !missing_image(&d) && d.mounts is None) ==> (r matches Ok(e)
                        && finalized_expanded(&d, &e, m@)),
                    None => true,
                })
                &&& (one_link_chain(path@, store, m@) && chain_finalizable(
                    &chain_base_doc(path@, store),
                    &stored_plain_doc(path@, store)->Some_0,
                )) ==> (r matches Ok(e) ==> exists|out: RawEDF|
                    {
                        &&& #[trigger] chain_merged(
                            &chain_base_doc(path@, store),
                            &stored_plain_doc(path@, store)->Some_0,
                            &out,
                            m@,
                        )
                        &&& e.annotations@ == doc_annos(&out)
                        &&& e.env@ == doc_env(&out)
                        &&& e.image == out.image->Some_0
                        &&& e.mounts@.len() == 0
                    })
            },
            None => {
                &&& (match stored_plain_doc(path@, store) {
                    Some(d) => (d.base_environment is None && doc_dollar_free(&d)
                        && !missing_image(&d) && d.mounts is None) ==> (r matches Ok(e)
                        && finalized_plain(&d, &e)),
                    None => true,
                })
                &&& (one_link_chain_plain(path@, store) && chain_finalizable(
                    &chain_base_doc(path@, store),
                    &stored_plain_doc(path@, store)->Some_0,
                )) ==> (r matches Ok(e) && e.annotations@ == doc_annos(
                    &chain_base_doc(path@, store),
                ).union_prefer_right(
                    doc_annos(&stored_plain_doc(path@, store)->Some_0),
                ) && e.env@ == doc_env(&chain_base_doc(path@, store)).union_prefer_right(
                    doc_env(&stored_plain_doc(path@, store)->Some_0),
                ) && e.image == chain_image(
                    &chain_base_doc(path@, store),
                    &stored_plain_doc(path@, store)->Some_0,
                )->Some_0 && e.mounts@.len() == 0)
            },
        },
{
    let raw = render_inner_loop(path, &search_paths, env, 0, MAX_RESOLVE_DEPTH, store)?;
    let ghost graw = raw;
    match edf_from_raw(raw, env) {
        Ok(e) => {
            proof {
                if stored_plain_doc(path@, store) is Some {
                    let sd = stored_plain_doc(path@, store)->Some_0;
                    if sd.base_environment is None && !missing_image(&sd) && sd.mounts is None {
                        if env is Some {
                            if doc_expands_ok(&sd, env.unwrap()@) {
                                assert(finalized_expanded(&sd, &e, env.unwrap()@));
                            }
                        } else {
                            if doc_dollar_free(&sd) {
                                assert(finalized_plain(&sd, &e));
                            }
                        }
                    }
                    let bd = chain_base_doc(path@, store);
                    if env is Some && one_link_chain(path@, store, env.unwrap()@)
                        && chain_finalizable(&bd, &sd) {
                        assert(chain_merged(&bd, &sd, &graw, env.unwrap()@));
                    }
                    if env is None && one_link_chain_plain(path@, store) && chain_finalizable(
                        &bd,
                        &sd,
                    ) {
                        assert(chain_merged_plain(&bd, &sd, &graw));
                        let m = choose|m: RawEDF|
                            #[trigger] pre_merged_plain(&bd, &sd, &m) && ambient_kept(
                                &m,
                                &graw,
                            );
                        if bd.annotations is None && sd.annotations is None {
                            assert(doc_annos(&graw) =~= doc_annos(&bd).union_prefer_right(
                                doc_annos(&sd),
                            ));
                        }
                        if bd.env is None && sd.env is None {
                            assert(doc_env(&graw) =~= doc_env(&bd).union_prefer_right(
                                doc_env(&sd),
                            ));
                        }
                    }
                }
            }
            Ok(e)
        },
        Err(e) => {
            proof {
                if stored_plain_doc(path@, store) is Some {
                    let sd = stored_plain_doc(path@, store)->Some_0;
                    if sd.base_environment is None && !missing_image(&sd) && sd.mounts is None {
                        if env is Some {
                            if doc_expands_ok(&sd, env.unwrap()@) {
                                assert(!missing_image(&graw) && graw.mounts is None);
                                assert(false);
                            }
                        } else {
                            if doc_dollar_free(&sd) {
                                assert(!missing_image(&graw) && graw.mounts is None);
                                assert(false);
                            }
                        }
                    }
                    let bd = chain_base_doc(path@, store);
                    if env is None && one_link_chain_plain(path@, store) && chain_finalizable(
                        &bd,
                        &sd,
                    ) {
                        assert(chain_merged_plain(&bd, &sd, &graw));
                        let m = choose|m: RawEDF|
                            #[trigger] pre_merged_plain(&bd, &sd, &m) && ambient_kept(
                                &m,
                                &graw,
                            );
                        assert(!missing_image(&graw) && graw.mounts is None);
                        assert(false);
                    }
                }
            }
            Err(ResolveHalt::Fail(e))
        },
    }
}

/// Resolve an environment name using the store's own search paths and the
/// ambient process environment, and finalize the result.
pub fn render(path: String, store: &DocStore) -> (r: Result<EDF, ResolveHalt>)
    requires
        store.wf(),
    ensures
        r matches Ok(e) ==> e.wf(),
        r matches Ok(e) ==> (forall|i: int, j: int|
            0 <= i < j < strs(e.devices).len() ==> strs(e.devices)[i] != strs(e.devices)[j]),
        r matches Ok(e) ==> (forall|i: int, j: int|
            0 <= i < j < e.mounts@.len() ==> crate::mount::mount_triple(&e.mounts@[i])
                != crate::mount::mount_triple(&e.mounts@[j])),
        self_referential(path@, store) ==> (r matches Err(ResolveHalt::Fail(e)) && e.code
            == CODE_TOO_DEEP),
        match stored_plain_doc(path@, store) {
            Some(d) => (d.base_environment is None && doc_dollar_free(&d) && !missing_image(&d)
                && d.mounts is None) ==> (r matches Ok(e) && finalized_plain(&d, &e)),
            None => true,
        },
        (one_link_chain_plain(path@, store) && chain_finalizable(
            &chain_base_doc(path@, store),
            &stored_plain_doc(path@, store)->Some_0,
        )) ==> (r matches Ok(e) && e.annotations@ == doc_annos(
            &chain_base_doc(path@, store),
        ).union_prefer_right(doc_annos(&stored_plain_doc(path@, store)->Some_0)) && e.env@
            == doc_env(&chain_base_doc(path@, store)).union_prefer_right(
            doc_env(&stored_plain_doc(path@, store)->Some_0),
        ) && e.image == chain_image(
            &chain_base_doc(path@, store),
            &stored_plain_doc(path@, store)->Some_0,
        )->Some_0 && e.mounts@.len() == 0),
{
    let sp = copy_strings(&store.search_paths);
    render_from_search_paths(path, sp, &None, store)
}

} // verus!
