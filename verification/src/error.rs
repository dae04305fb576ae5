//! The error record that every failing operation of this crate returns:
//! a stable numeric code, an optional offending file path, and a message.

use vstd::prelude::*;
use crate::strutil::{dec_rep, push_all, push_str_chars, str_to_chars, u64_to_dec};

verus! {

/// Code for a base-environment chain that exceeds the depth bound.
pub const CODE_TOO_DEEP: u64 = 5;

/// Code for an environment name that no search-path entry resolves.
pub const CODE_NOT_FOUND: u64 = 6;

/// Code for a resolved environment that still lacks an image.
pub const CODE_MISSING_IMAGE: u64 = 7;

/// Code for a mount specification with fewer than two or more than three fields.
pub const CODE_MALFORMED_MOUNT: u64 = 8;

/// Code for a squashfs mount source that cannot be made absolute.
pub const CODE_ABS_FAILED: u64 = 9;

/// Code for a squashfs mount source that is not a relative or absolute path.
pub const CODE_SQSH_SOURCE: u64 = 10;

/// Code for an absolutized squashfs mount source that is not valid Unicode.
pub const CODE_NOT_UNICODE: u64 = 11;

/// Code for a bind mount source that is no path and no known keyword.
pub const CODE_MOUNT_SOURCE: u64 = 12;

/// Code for a mount target that is not a relative or absolute path.
pub const CODE_MOUNT_TARGET: u64 = 13;

/// Code for a squashfs mount source that does not exist.
pub const CODE_SQSH_MISSING: u64 = 14;

/// Code for a squashfs mount source that is not a regular file.
pub const CODE_SQSH_NOT_REGULAR: u64 = 16;

/// Code for a variable reference that no environment entry binds.
pub const CODE_UNBOUND_VARIABLE: u64 = 17;

/// Code for a string that the expansion subsystem refuses or cannot parse.
pub const CODE_BANNED_EXPANSION: u64 = 18;

#[derive(Clone, Debug)]
pub struct SarusError {
    pub code: u64,
    pub file_path: Option<String>,
    pub msg: String,
}

pub type SarusResult<T> = Result<T, SarusError>;

/// The code as decimal digits, left-padded with zeros to at least three.
pub open spec fn padded_code(c: int) -> Seq<char> {
    let d = dec_rep(c);
    if d.len() >= 3 {
        d
    } else if d.len() == 2 {
        seq!['0'] + d
    } else {
        seq!['0', '0'] + d
    }
}

/// The one-line rendering of an error:
/// `Error NNN: message`, or `Error NNN on path: message`.
pub open spec fn error_text(e: &SarusError) -> Seq<char> {
    "Error "@ + padded_code(e.code as int) + (match e.file_path {
        Some(p) => " on "@ + p@,
        None => Seq::<char>::empty(),
    }) + ": "@ + e.msg@
}

impl SarusError {
    /// An error with no file path attached.
    pub fn new(code: u64, msg: String) -> (r: SarusError)
        ensures
            r.code == code,
            r.file_path is None,
            r.msg == msg,
    {
        SarusError { code, file_path: None, msg }
    }

    /// An error attached to the file it concerns.
    pub fn at_path(code: u64, path: String, msg: String) -> (r: SarusError)
        ensures
            r.code == code,
            r.file_path == Some(path),
            r.msg == msg,
    {
        SarusError { code, file_path: Some(path), msg }
    }

    /// Render the error as its one-line message.
    pub fn render_message(&self) -> (r: String)
        ensures
            r@ == error_text(self),
    {
        let mut out: Vec<char> = Vec::new();
        push_str_chars(&mut out, "Error ");
        let digits = u64_to_dec(self.code);
        let dchars = str_to_chars(digits.as_str());
        if dchars.len() == 1 {
            out.push('0');
            out.push('0');
        } else if dchars.len() == 2 {
            out.push('0');
        }
        push_all(&mut out, &dchars);
        proof {
            assert(out@ =~= "Error "@ + padded_code(self.code as int));
        }
        match &self.file_path {
            Some(p) => {
                push_str_chars(&mut out, " on ");
                push_str_chars(&mut out, p.as_str());
            },
            None => {},
        }
        push_str_chars(&mut out, ": ");
        push_str_chars(&mut out, self.msg.as_str());
        proof {
            assert(out@ =~= error_text(self));
        }
        crate::strutil::chars_to_string(&out)
    }
}

} // verus!
