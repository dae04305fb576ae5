//! The mount compiler: `source:target[:flags]` specifications become
//! normalized mount records. The source is classified before expansion
//! (a path, `tmpfs`, or `umount`), source and target are escaped with
//! fstab conventions and expanded, both are re-validated after expansion,
//! and flags are deduplicated keeping first occurrences.

use vstd::prelude::*;
use crate::common::{expand_hardened, expand_vars_string, ExpandFailure};
use crate::error::{
    CODE_ABS_FAILED, CODE_BANNED_EXPANSION, CODE_MALFORMED_MOUNT, CODE_MOUNT_SOURCE,
    CODE_MOUNT_TARGET, CODE_NOT_UNICODE, CODE_SQSH_MISSING, CODE_SQSH_NOT_REGULAR,
    CODE_SQSH_SOURCE, CODE_UNBOUND_VARIABLE, SarusError, SarusResult,
};
use crate::fsinfo::{absolutize, path_exists, path_is_regular, AbsPath};
use crate::smap::StrMap;
use crate::strutil::{
    chars_eq, chars_start_with, chars_to_string, copy_chars, dedup_chars, dedup_seq, find_from,
    join_chars, join_seq, push_str_chars, split_chars, split_seq, starts_with_char, str_eq,
    str_to_chars,
};

verus! {

/// A compiled mount record; textual form `source:target`, with `:flags`
/// appended when flags are present.
#[derive(Clone, Debug)]
pub struct SarusMount {
    pub source: String,
    pub target: String,
    pub flags: String,
}

pub type SarusMounts = Vec<SarusMount>;

/// Whether a string is written as a path: relative starting with `.`, or
/// absolute starting with `/`.
pub open spec fn path_like(s: Seq<char>) -> bool {
    starts_with_char(s, '.') || starts_with_char(s, '/')
}

/// The fstab escape of one character: space, tab, newline and backslash
/// become octal escapes or a doubled backslash.
pub open spec fn escape_char(c: char) -> Seq<char> {
    if c == ' ' {
        seq!['\\', '0', '4', '0']
    } else if c == '\t' {
        seq!['\\', '0', '1', '1']
    } else if c == '\n' {
        seq!['\\', '0', '1', '2']
    } else if c == '\\' {
        seq!['\\', '\\']
    } else {
        seq![c]
    }
}

/// The fstab escape of a whole string.
pub open spec fn escape_seq(s: Seq<char>) -> Seq<char>
    decreases s.len(),
{
    if s.len() == 0 {
        Seq::empty()
    } else {
        escape_seq(s.drop_last()) + escape_char(s.last())
    }
}

/// Escape a path with fstab conventions.
pub fn escape_mount(path: &Vec<char>) -> (r: Vec<char>)
    ensures
        r@ == escape_seq(path@),
{
    let mut out: Vec<char> = Vec::new();
    let mut i: usize = 0;
    proof {
        assert(path@.take(0) =~= Seq::<char>::empty());
    }
    while i < path.len()
        invariant
            i <= path@.len(),
            out@ == escape_seq(path@.take(i as int)),
        decreases path@.len() - i,
    {
        let c = path[i];
        if c == ' ' {
            out.push('\\');
            out.push('0');
            out.push('4');
            out.push('0');
        } else if c == '\t' {
            out.push('\\');
            out.push('0');
            out.push('1');
            out.push('1');
        } else if c == '\n' {
            out.push('\\');
            out.push('0');
            out.push('1');
            out.push('2');
        } else if c == '\\' {
            out.push('\\');
            out.push('\\');
        } else {
            out.push(c);
        }
        i = i + 1;
        proof {
            let ghost pre = path@.take(i as int);
            assert(pre.drop_last() =~= path@.take(i - 1));
            assert(pre.last() == path@[i - 1]);
            assert(out@ =~= escape_seq(pre));
        }
    }
    proof {
        assert(path@.take(path@.len() as int) =~= path@);
    }
    out
}

/// User flags with the `+` separator turned back into `,`.
pub open spec fn replace_plus(f: Seq<char>) -> Seq<char> {
    f.map_values(|c: char| if c == '+' { ',' } else { c })
}

/// The final flags string: split at commas, duplicates removed keeping
/// first occurrences, joined back with commas.
pub open spec fn norm_flags(ef: Seq<char>) -> Seq<char> {
    join_seq(dedup_seq(split_seq(ef, ',')), ',')
}

/// Normalization is idempotent: a normalized flags string is its own
/// normalization, so a compiled mount's flags hold no repeated atom.
pub proof fn lemma_norm_flags_idempotent(ef: Seq<char>)
    ensures
        norm_flags(norm_flags(ef)) == norm_flags(ef),
{
    let parts = split_seq(ef, ',');
    let d = dedup_seq(parts);
    crate::strutil::lemma_split_seq_len(ef, ',');
    crate::strutil::lemma_split_pieces_no_sep(ef, ',');
    crate::strutil::lemma_dedup_seq_props(parts);
    assert(parts.contains(parts[0]));
    assert(d.contains(parts[0]));
    assert(d.len() >= 1);
    assert forall|p: int, j: int|
        0 <= p < d.len() && 0 <= j < d[p].len() implies #[trigger] d[p][j] != ',' by {
        assert(d.contains(d[p]));
        assert(parts.contains(d[p]));
        let k = choose|k: int| 0 <= k < parts.len() && parts[k] == d[p];
        assert(parts[k][j] != ',');
    }
    crate::strutil::lemma_split_join_inverse(d, ',');
    crate::strutil::lemma_dedup_idempotent(parts);
}

/// The empty flags string is already normalized.
pub proof fn lemma_norm_flags_empty()
    ensures
        norm_flags(Seq::<char>::empty()) == Seq::<char>::empty(),
{
    let e = Seq::<char>::empty();
    assert(find_from(e, 0, ',') is None);
    assert(split_seq(e, ',') == seq![e]);
    assert(seq![e].drop_last() =~= Seq::<Seq<char>>::empty());
    assert(dedup_seq(seq![e].drop_last()) == Seq::<Seq<char>>::empty());
    assert(!Seq::<Seq<char>>::empty().contains(e));
    assert(dedup_seq(seq![e]) == Seq::<Seq<char>>::empty().push(seq![e].last()));
    assert(dedup_seq(seq![e]) =~= seq![e]);
    assert(join_seq(seq![e], ',') == e);
}

/// The deterministic part of squashfs compilation for a source that is
/// already absolute: target check, escaping, expansion, re-validation.
/// The disk probes come after and are not a function of the arguments.
pub open spec fn sqsh_fields(src: Seq<char>, tgt: Seq<char>, env: Map<Seq<char>, Seq<char>>) -> Result<
    (Seq<char>, Seq<char>),
    u64,
> {
    if !path_like(tgt) {
        Err(CODE_MOUNT_TARGET)
    } else {
        match expand_hardened(escape_seq(src), env) {
            Err(e) => Err(expand_code(e)),
            Ok(es) => if !path_like(es) {
                Err(CODE_SQSH_SOURCE)
            } else {
                match expand_hardened(escape_seq(tgt), env) {
                    Err(e) => Err(expand_code(e)),
                    Ok(et) => if !path_like(et) {
                        Err(CODE_MOUNT_TARGET)
                    } else {
                        Ok((es, et))
                    },
                }
            },
        }
    }
}

/// The error code that an expansion failure maps to.
pub open spec fn expand_code(e: ExpandFailure) -> u64 {
    match e {
        ExpandFailure::Unbound => CODE_UNBOUND_VARIABLE,
        ExpandFailure::Invalid => CODE_BANNED_EXPANSION,
    }
}

/// Whether the specification names a squashfs mount: exactly three fields
/// and the literal flag `sqsh`.
pub open spec fn is_sqsh_spec(s: Seq<char>) -> bool {
    split_seq(s, ':').len() == 3 && split_seq(s, ':')[2] == "sqsh"@
}

/// The compilation of a non-squashfs mount once the fields are separated:
/// classification, target check, escaping, expansion, re-validation, and
/// flag assembly, in that order.
pub open spec fn compile_fields(
    src: Seq<char>,
    tgt: Seq<char>,
    f: Seq<char>,
    env: Map<Seq<char>, Seq<char>>,
) -> Result<(Seq<char>, Seq<char>, Seq<char>), u64> {
    if !(path_like(src) || src == "tmpfs"@ || src == "umount"@) {
        Err(CODE_MOUNT_SOURCE)
    } else if !path_like(tgt) {
        Err(CODE_MOUNT_TARGET)
    } else {
        let df = if path_like(src) {
            "x-create=auto,rbind"@
        } else if src == "tmpfs"@ {
            "x-create=dir"@
        } else {
            "x-detach"@
        };
        match expand_hardened(escape_seq(src), env) {
            Err(e) => Err(expand_code(e)),
            Ok(es) => if path_like(src) && !path_like(es) {
                Err(CODE_MOUNT_SOURCE)
            } else {
                match expand_hardened(escape_seq(tgt), env) {
                    Err(e) => Err(expand_code(e)),
                    Ok(et) => if !path_like(et) {
                        Err(CODE_MOUNT_TARGET)
                    } else {
                        let combined = if f.len() == 0 {
                            df
                        } else {
                            df + seq![','] + replace_plus(f)
                        };
                        match expand_hardened(combined, env) {
                            Err(e) => Err(expand_code(e)),
                            Ok(ef) => Ok((es, et, norm_flags(ef))),
                        }
                    },
                }
            },
        }
    }
}

/// The compilation of a whole non-squashfs mount specification under an
/// explicit environment.
pub open spec fn compile_spec(s: Seq<char>, env: Map<Seq<char>, Seq<char>>) -> Result<
    (Seq<char>, Seq<char>, Seq<char>),
    u64,
> {
    let parts = split_seq(s, ':');
    if parts.len() < 2 || parts.len() > 3 {
        Err(CODE_MALFORMED_MOUNT)
    } else {
        let src = parts[0];
        let tgt = parts[1];
        let f = if parts.len() == 3 {
            parts[2]
        } else {
            Seq::empty()
        };
        compile_fields(src, tgt, f, env)
    }
}

impl SarusMount {
    /// Compile one `source:target[:flags]` specification.
    pub fn try_new(input: String, env: &Option<StrMap>) -> (r: SarusResult<SarusMount>)
        requires
            match env {
                Some(m) => m.wf(),
                None => true,
            },
        ensures
            match env {
                Some(m) => !is_sqsh_spec(input@) ==> (match compile_spec(input@, m@) {
                    Ok(t) => r matches Ok(mt) && mt.source@ == t.0 && mt.target@ == t.1
                        && mt.flags@ == t.2,
                    Err(c) => r matches Err(e) && e.code == c && e.file_path is None,
                }),
                None => true,
            },
            r matches Err(e) ==> e.file_path is None,
            is_sqsh_spec(input@) ==> (r matches Ok(mt) ==> mt.flags@ == Seq::<char>::empty()),
            (split_seq(input@, ':').len() < 2 || split_seq(input@, ':').len() > 3) <==> (r
                matches Err(e) && e.code == CODE_MALFORMED_MOUNT),
            (2 <= split_seq(input@, ':').len() <= 3 && !is_sqsh_spec(input@) && !path_like(
                split_seq(input@, ':')[0],
            ) && split_seq(input@, ':')[0] != "tmpfs"@ && split_seq(input@, ':')[0]
                != "umount"@) ==> (r matches Err(e) && e.code == CODE_MOUNT_SOURCE),
            (2 <= split_seq(input@, ':').len() <= 3 && !is_sqsh_spec(input@) && (path_like(
                split_seq(input@, ':')[0],
            ) || split_seq(input@, ':')[0] == "tmpfs"@ || split_seq(input@, ':')[0]
                == "umount"@) && !path_like(split_seq(input@, ':')[1])) ==> (r matches Err(e)
                && e.code == CODE_MOUNT_TARGET),
            r matches Ok(mt) ==> norm_flags(mt.flags@) == mt.flags@,
            r matches Err(e) ==> e.code == CODE_MALFORMED_MOUNT || e.code == CODE_ABS_FAILED
                || e.code == CODE_NOT_UNICODE || e.code == CODE_SQSH_SOURCE || e.code
                == CODE_MOUNT_SOURCE || e.code == CODE_MOUNT_TARGET || e.code
                == CODE_SQSH_MISSING || e.code == CODE_SQSH_NOT_REGULAR || e.code
                == CODE_UNBOUND_VARIABLE || e.code == CODE_BANNED_EXPANSION,
            is_sqsh_spec(input@) ==> {
                &&& !path_like(split_seq(input@, ':')[0]) ==> (r matches Err(e) && e.code
                    == CODE_SQSH_SOURCE)
                &&& (starts_with_char(split_seq(input@, ':')[0], '/') && !path_like(
                    split_seq(input@, ':')[1],
                )) ==> (r matches Err(e) && e.code == CODE_MOUNT_TARGET)
                &&& match env {
                    Some(m) => {
                        &&& starts_with_char(split_seq(input@, ':')[0], '/') ==> (match
                            sqsh_fields(
                            split_seq(input@, ':')[0],
                            split_seq(input@, ':')[1],
                            m@,
                        ) {
                            Err(c) => r matches Err(e) && e.code == c,
                            Ok(t) => (r matches Ok(mt) ==> mt.source@ == t.0 && mt.target@
                                == t.1) && (r matches Err(e) ==> e.code == CODE_SQSH_MISSING
                                || e.code == CODE_SQSH_NOT_REGULAR),
                        })
                        &&& r matches Ok(mt) ==> expand_hardened(
                            escape_seq(split_seq(input@, ':')[1]),
                            m@,
                        ) is Ok && mt.target@ == expand_hardened(
                            escape_seq(split_seq(input@, ':')[1]),
                            m@,
                        )->Ok_0
                    },
                    None => true,
                }
            },
    {
        let chars = str_to_chars(input.as_str());
        let parts = split_chars(&chars, ':');
        if parts.len() < 2 || parts.len() > 3 {
            let msg = crate::common::concat3(
                input.as_str(),
                " does not hold 2 or 3 fields",
                "",
            );
            return Err(SarusError::new(CODE_MALFORMED_MOUNT, msg));
        }
        let srcv = copy_chars(&parts[0]);
        let tgtv = copy_chars(&parts[1]);
        let fv: Vec<char> = if parts.len() == 3 {
            copy_chars(&parts[2])
        } else {
            Vec::new()
        };
        proof {
            assert(srcv@ == split_seq(chars@, ':')[0]);
            assert(tgtv@ == split_seq(chars@, ':')[1]);
            if parts@.len() == 3 {
                assert(fv@ == split_seq(chars@, ':')[2]);
            }
        }
        let sqsh_lit = str_to_chars("sqsh");
        let is_sqsh = parts.len() == 3 && chars_eq(&fv, &sqsh_lit);
        proof {
            assert(is_sqsh == is_sqsh_spec(input@));
        }
        if is_sqsh {
            let r = Self::compile_sqsh(srcv, tgtv, env);
            proof {
                lemma_norm_flags_empty();
            }
            return r;
        }
        let src_is_path = chars_start_with(&srcv, '.') || chars_start_with(&srcv, '/');
        let tmpfs_lit = str_to_chars("tmpfs");
        let umount_lit = str_to_chars("umount");
        let df: &str = if src_is_path {
            "x-create=auto,rbind"
        } else if chars_eq(&srcv, &tmpfs_lit) {
            "x-create=dir"
        } else if chars_eq(&srcv, &umount_lit) {
            "x-detach"
        } else {
            let msg = crate::common::concat3(
                "mount source must be a path starting with . or /, ",
                "or one of tmpfs and umount",
                "",
            );
            return Err(SarusError::new(CODE_MOUNT_SOURCE, msg));
        };
        if !(chars_start_with(&tgtv, '.') || chars_start_with(&tgtv, '/')) {
            let msg = crate::common::concat3(
                "mount target must be a path starting with . or /",
                "",
                "",
            );
            return Err(SarusError::new(CODE_MOUNT_TARGET, msg));
        }
        proof {
            if env is Some {
                assert(compile_spec(input@, env.unwrap()@) == compile_fields(
                    srcv@,
                    tgtv@,
                    fv@,
                    env.unwrap()@,
                ));
            }
        }
        let es_raw = escape_mount(&srcv);
        let es = match expand_vars_string(chars_to_string(&es_raw), env) {
            Ok(s) => s,
            Err(e) => {
                return Err(e);
            },
        };
        let esv = str_to_chars(es.as_str());
        if src_is_path && !(chars_start_with(&esv, '.') || chars_start_with(&esv, '/')) {
            let msg = crate::common::concat3(
                "expanded mount source must be a path starting with . or /",
                "",
                "",
            );
            return Err(SarusError::new(CODE_MOUNT_SOURCE, msg));
        }
        let et_raw = escape_mount(&tgtv);
        let et = match expand_vars_string(chars_to_string(&et_raw), env) {
            Ok(s) => s,
            Err(e) => {
                return Err(e);
            },
        };
        let etv = str_to_chars(et.as_str());
        if !(chars_start_with(&etv, '.') || chars_start_with(&etv, '/')) {
            let msg = crate::common::concat3(
                "expanded mount target must be a path starting with . or /",
                "",
                "",
            );
            return Err(SarusError::new(CODE_MOUNT_TARGET, msg));
        }
        let mut combined: Vec<char> = Vec::new();
        push_str_chars(&mut combined, df);
        if fv.len() > 0 {
            combined.push(',');
            let mut i: usize = 0;
            let ghost mid = combined@;
            while i < fv.len()
                invariant
                    i <= fv@.len(),
                    combined@ == mid + replace_plus(fv@.take(i as int)),
                decreases fv@.len() - i,
            {
                let c = fv[i];
                if c == '+' {
                    combined.push(',');
                } else {
                    combined.push(c);
                }
                i = i + 1;
                proof {
                    assert(combined@ =~= mid + replace_plus(fv@.take(i as int)));
                }
            }
            proof {
                assert(fv@.take(fv@.len() as int) =~= fv@);
            }
        }
        proof {
            if fv@.len() == 0 {
                assert(combined@ =~= df@);
            } else {
                assert(combined@ =~= df@ + seq![','] + replace_plus(fv@));
            }
        }
        let ef = match expand_vars_string(chars_to_string(&combined), env) {
            Ok(s) => s,
            Err(e) => {
                return Err(e);
            },
        };
        let efv = str_to_chars(ef.as_str());
        let flag_parts = split_chars(&efv, ',');
        let flag_unique = dedup_chars(&flag_parts);
        let flags = join_chars(&flag_unique, ',');
        proof {
            assert(flags@ == norm_flags(efv@));
            lemma_norm_flags_idempotent(efv@);
        }
        let mnt = SarusMount {
            source: es,
            target: et,
            flags: chars_to_string(&flags),
        };
        Ok(mnt)
    }

    /// Compile a squashfs mount: the source is made absolute when
    /// relative, and must name an existing regular file after expansion.
    fn compile_sqsh(srcv: Vec<char>, tgtv: Vec<char>, env: &Option<StrMap>) -> (r: SarusResult<
        SarusMount,
    >)
        requires
            match env {
                Some(m) => m.wf(),
                None => true,
            },
        ensures
            r matches Ok(mt) ==> mt.flags@ == Seq::<char>::empty(),
            r matches Err(e) ==> e.file_path is None,
            r matches Err(e) ==> e.code == CODE_ABS_FAILED || e.code == CODE_NOT_UNICODE
                || e.code == CODE_SQSH_SOURCE || e.code == CODE_MOUNT_TARGET || e.code
                == CODE_SQSH_MISSING || e.code == CODE_SQSH_NOT_REGULAR || e.code
                == CODE_UNBOUND_VARIABLE || e.code == CODE_BANNED_EXPANSION,
            !path_like(srcv@) ==> (r matches Err(e) && e.code == CODE_SQSH_SOURCE),
            starts_with_char(srcv@, '/') && !path_like(tgtv@) ==> (r matches Err(e) && e.code
                == CODE_MOUNT_TARGET),
            match env {
                Some(m) => {
                    &&& starts_with_char(srcv@, '/') ==> (match sqsh_fields(srcv@, tgtv@, m@) {
                        Err(c) => r matches Err(e) && e.code == c,
                        Ok(t) => (r matches Ok(mt) ==> mt.source@ == t.0 && mt.target@ == t.1)
                            && (r matches Err(e) ==> e.code == CODE_SQSH_MISSING || e.code
                            == CODE_SQSH_NOT_REGULAR),
                    })
                    &&& r matches Ok(mt) ==> expand_hardened(escape_seq(tgtv@), m@) is Ok
                        && mt.target@ == expand_hardened(escape_seq(tgtv@), m@)->Ok_0
                },
                None => true,
            },
    {
        let src_abs: Vec<char> = if chars_start_with(&srcv, '.') {
            match absolutize(&chars_to_string(&srcv)) {
                AbsPath::Abs(a) => str_to_chars(a.as_str()),
                AbsPath::NotAbsolute => {
                    let msg = crate::common::concat3(
                        "cannot translate squashfs mount source ",
                        "into an absolute path",
                        "",
                    );
                    return Err(SarusError::new(CODE_ABS_FAILED, msg));
                },
                AbsPath::NotUnicode => {
                    let msg = crate::common::concat3(
                        "cannot translate squashfs mount source ",
                        "into a string",
                        "",
                    );
                    return Err(SarusError::new(CODE_NOT_UNICODE, msg));
                },
            }
        } else if chars_start_with(&srcv, '/') {
            srcv
        } else {
            let msg = crate::common::concat3(
                "source of a squashfs mount must be a path starting with . or /",
                "",
                "",
            );
            return Err(SarusError::new(CODE_SQSH_SOURCE, msg));
        };
        if !(chars_start_with(&tgtv, '.') || chars_start_with(&tgtv, '/')) {
            let msg = crate::common::concat3(
                "mount target must be a path starting with . or /",
                "",
                "",
            );
            return Err(SarusError::new(CODE_MOUNT_TARGET, msg));
        }
        let es_raw = escape_mount(&src_abs);
        let es = match expand_vars_string(chars_to_string(&es_raw), env) {
            Ok(s) => s,
            Err(e) => {
                return Err(e);
            },
        };
        let esv = str_to_chars(es.as_str());
        if !(chars_start_with(&esv, '.') || chars_start_with(&esv, '/')) {
            let msg = crate::common::concat3(
                "expanded squashfs mount source must be a path starting with . or /",
                "",
                "",
            );
            return Err(SarusError::new(CODE_SQSH_SOURCE, msg));
        }
        let et_raw = escape_mount(&tgtv);
        let et = match expand_vars_string(chars_to_string(&et_raw), env) {
            Ok(s) => s,
            Err(e) => {
                return Err(e);
            },
        };
        let etv = str_to_chars(et.as_str());
        if !(chars_start_with(&etv, '.') || chars_start_with(&etv, '/')) {
            let msg = crate::common::concat3(
                "expanded mount target must be a path starting with . or /",
                "",
                "",
            );
            return Err(SarusError::new(CODE_MOUNT_TARGET, msg));
        }
        if !path_exists(&es) {
            let msg = crate::common::concat3(
                "could not find source of squashfs mount ",
                es.as_str(),
                "",
            );
            return Err(SarusError::new(CODE_SQSH_MISSING, msg));
        }
        if !path_is_regular(&es) {
            let msg = crate::common::concat3(
                "source of squashfs mount ",
                es.as_str(),
                " must be a regular file",
            );
            return Err(SarusError::new(CODE_SQSH_NOT_REGULAR, msg));
        }
        Ok(SarusMount { source: es, target: et, flags: String::new() })
    }

    /// The textual form: `source:target`, with `:flags` appended when
    /// flags are present.
    pub fn to_volume_string(&self) -> (r: String)
        ensures
            self.flags@.len() == 0 ==> r@ == self.source@ + seq![':'] + self.target@,
            self.flags@.len() > 0 ==> r@ == self.source@ + seq![':'] + self.target@ + seq![':']
                + self.flags@,
    {
        let mut out: Vec<char> = Vec::new();
        push_str_chars(&mut out, self.source.as_str());
        out.push(':');
        push_str_chars(&mut out, self.target.as_str());
        if self.flags.as_str().unicode_len() > 0 {
            out.push(':');
            push_str_chars(&mut out, self.flags.as_str());
        }
        chars_to_string(&out)
    }
}

/// The triple of a mount's fields, by which mount records are compared.
pub open spec fn mount_triple(m: &SarusMount) -> (Seq<char>, Seq<char>, Seq<char>) {
    (m.source@, m.target@, m.flags@)
}

/// Whether any specification of the list names a squashfs mount.
pub open spec fn any_sqsh(ss: Seq<Seq<char>>) -> bool {
    exists|i: int| 0 <= i < ss.len() && is_sqsh_spec(#[trigger] ss[i])
}

/// The compilation of a list of mount specifications: each compiles in
/// order, the first failure wins, and a record equal to an earlier one is
/// dropped.
pub open spec fn mounts_spec(ss: Seq<Seq<char>>, env: Map<Seq<char>, Seq<char>>) -> Result<
    Seq<(Seq<char>, Seq<char>, Seq<char>)>,
    u64,
>
    decreases ss.len(),
{
    if ss.len() == 0 {
        Ok(Seq::empty())
    } else {
        match mounts_spec(ss.drop_last(), env) {
            Err(c) => Err(c),
            Ok(ms) => match compile_spec(ss.last(), env) {
                Err(c) => Err(c),
                Ok(t) => if ms.contains(t) {
                    Ok(ms)
                } else {
                    Ok(ms.push(t))
                },
            },
        }
    }
}

/// Once a prefix of the list fails to compile, the whole list fails the
/// same way.
proof fn lemma_mounts_spec_err_persists(ss: Seq<Seq<char>>, env: Map<Seq<char>, Seq<char>>, i: int)
    requires
        0 <= i <= ss.len(),
        mounts_spec(ss.take(i), env) is Err,
    ensures
        mounts_spec(ss, env) == mounts_spec(ss.take(i), env),
    decreases ss.len() - i,
{
    if i < ss.len() {
        assert(ss.take(i + 1).drop_last() =~= ss.take(i));
        lemma_mounts_spec_err_persists(ss, env, i + 1);
    } else {
        assert(ss.take(i) =~= ss);
    }
}

fn mount_same(a: &SarusMount, b: &SarusMount) -> (r: bool)
    ensures
        r == (mount_triple(a) == mount_triple(b)),
{
    str_eq(a.source.as_str(), b.source.as_str()) && str_eq(a.target.as_str(), b.target.as_str())
        && str_eq(a.flags.as_str(), b.flags.as_str())
}

/// The triples of a list of mount records.
pub open spec fn mount_triples(ms: Seq<SarusMount>) -> Seq<(Seq<char>, Seq<char>, Seq<char>)> {
    ms.map_values(|m: SarusMount| (m.source@, m.target@, m.flags@))
}

/// Compile a list of raw mount specifications, dropping every record equal
/// to an earlier one.
pub fn sarus_mounts_from_strings(input: Vec<String>, env: &Option<StrMap>) -> (r: SarusResult<
    SarusMounts,
>)
    requires
        match env {
            Some(m) => m.wf(),
            None => true,
        },
    ensures
        r matches Ok(ms) ==> forall|i: int, j: int|
            0 <= i < j < ms@.len() ==> mount_triple(&ms@[i]) != mount_triple(&ms@[j]),
        match env {
            Some(m) => !any_sqsh(crate::resolve::strs(input)) ==> (match mounts_spec(
                crate::resolve::strs(input),
                m@,
            ) {
                Ok(ts) => r matches Ok(ms) && mount_triples(ms@) == ts,
                Err(c) => r matches Err(e) && e.code == c,
            }),
            None => true,
        },
{
    let mut res: Vec<SarusMount> = Vec::new();
    let mut i: usize = 0;
    let ghost ss = crate::resolve::strs(input);
    proof {
        assert(mount_triples(res@) =~= Seq::<(Seq<char>, Seq<char>, Seq<char>)>::empty());
        assert(ss.take(0) =~= Seq::<Seq<char>>::empty());
    }
    while i < input.len()
        invariant
            i <= input@.len(),
            ss == crate::resolve::strs(input),
            match env {
                Some(m) => m.wf() && (!any_sqsh(ss) ==> mounts_spec(ss.take(i as int), m@)
                    == Ok::<Seq<(Seq<char>, Seq<char>, Seq<char>)>, u64>(mount_triples(res@))),
                None => true,
            },
            forall|a: int, b: int|
                0 <= a < b < res@.len() ==> mount_triple(&res@[a]) != mount_triple(&res@[b]),
        decreases input@.len() - i,
    {
        let item = input[i].clone();
        proof {
            if env is Some && !any_sqsh(ss) {
                assert(!is_sqsh_spec(ss[i as int]));
            }
        }
        let m = match SarusMount::try_new(item, env) {
            Ok(m) => m,
            Err(e) => {
                proof {
                    if env is Some && !any_sqsh(ss) {
                        let menv = env.unwrap();
                        assert(ss.take(i + 1).drop_last() =~= ss.take(i as int));
                        assert(ss.take(i + 1).last() == ss[i as int]);
                        assert(mounts_spec(ss.take(i + 1), menv@) == Err::<
                            Seq<(Seq<char>, Seq<char>, Seq<char>)>,
                            u64,
                        >(e.code));
                        lemma_mounts_spec_err_persists(ss, menv@, i + 1);
                    }
                }
                return Err(e);
            },
        };
        let mut seen = false;
        let mut j: usize = 0;
        while j < res.len()
            invariant
                j <= res@.len(),
                seen == exists|k: int|
                    0 <= k < j && mount_triple(&res@[k]) == mount_triple(&m),
            decreases res@.len() - j,
        {
            if mount_same(&res[j], &m) {
                seen = true;
            }
            j = j + 1;
        }
        proof {
            if seen {
                let k = choose|k: int|
                    0 <= k < res@.len() && mount_triple(&res@[k]) == mount_triple(&m);
                assert(mount_triples(res@)[k] == mount_triple(&m));
                assert(mount_triples(res@).contains(mount_triple(&m)));
            } else {
                if mount_triples(res@).contains(mount_triple(&m)) {
                    let k = choose|k: int|
                        0 <= k < mount_triples(res@).len() && mount_triples(res@)[k]
                            == mount_triple(&m);
                    assert(mount_triple(&res@[k]) == mount_triple(&m));
                    assert(false);
                }
            }
        }
        let ghost res_before = res@;
        if !seen {
            res.push(m);
        }
        i = i + 1;
        proof {
            if env is Some && !any_sqsh(ss) {
                assert(ss.take(i as int).drop_last() =~= ss.take(i - 1));
                assert(ss.take(i as int).last() == ss[i - 1]);
                if !seen {
                    assert(mount_triples(res@) =~= mount_triples(res_before).push(
                        mount_triple(&res@[res@.len() - 1]),
                    ));
                }
            }
        }
    }
    proof {
        assert(ss.take(input@.len() as int) =~= ss);
    }
    Ok(res)
}

} // verus!
