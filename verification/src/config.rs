//! Tool configuration: raw fragments merged right-biased into one
//! effective settings object, with defaults for unset fields, variable
//! expansion over its string fields, and the post-resolution override of
//! single fields by well-known annotation keys of a finalized environment.

use vstd::prelude::*;
use crate::common::{expand_hardened, expand_vars_string};
use crate::resolve::EDF;
use crate::smap::StrMap;
use crate::strutil::{split_seq, str_eq, views};
use vstd::string::StringExecFns;

verus! {

/// One configuration fragment as read from a file: every field optional.
pub struct RawConfig {
    pub edf_system_search_path: Option<String>,
    pub parallax_imagestore: Option<String>,
    pub parallax_mount_program: Option<String>,
    pub parallax_path: Option<String>,
    pub perfmon: Option<bool>,
    pub podman_module: Option<String>,
    pub podman_path: Option<String>,
    pub podman_tmp_path: Option<String>,
    pub runtime_path: Option<String>,
    pub skybox_enabled: Option<bool>,
    pub tracking_enabled: Option<bool>,
    pub tracking_tool: Option<String>,
}

/// The effective settings: every field populated.
pub struct Config {
    pub edf_system_search_path: String,
    pub parallax_imagestore: String,
    pub parallax_mount_program: String,
    pub parallax_path: String,
    pub perfmon: bool,
    pub podman_module: String,
    pub podman_path: String,
    pub podman_tmp_path: String,
    pub runtime_path: String,
    pub skybox_enabled: bool,
    pub tracking_enabled: bool,
    pub tracking_tool: String,
}

impl Default for RawConfig {
    /// The fragment with every field unset.
    fn default() -> (r: RawConfig)
        ensures
            r.edf_system_search_path is None,
            r.parallax_imagestore is None,
            r.parallax_mount_program is None,
            r.parallax_path is None,
            r.perfmon is None,
            r.podman_module is None,
            r.podman_path is None,
            r.podman_tmp_path is None,
            r.runtime_path is None,
            r.skybox_enabled is None,
            r.tracking_enabled is None,
            r.tracking_tool is None,
    {
        RawConfig {
            edf_system_search_path: None,
            parallax_imagestore: None,
            parallax_mount_program: None,
            parallax_path: None,
            perfmon: None,
            podman_module: None,
            podman_path: None,
            podman_tmp_path: None,
            runtime_path: None,
            skybox_enabled: None,
            tracking_enabled: None,
            tracking_tool: None,
        }
    }
}

fn merge_cfg_scalar(a: Option<String>, b: &Option<String>) -> (r: Option<String>)
    ensures
        r == (if b is Some {
            *b
        } else {
            a
        }),
{
    match b {
        Some(s) => Some(s.clone()),
        None => a,
    }
}

impl RawConfig {
    /// Overwrite this fragment's fields with the other fragment's set
    /// fields.
    pub fn extend(&mut self, other: &RawConfig)
        ensures
            final(self).edf_system_search_path == (if other.edf_system_search_path is Some {
                other.edf_system_search_path
            } else {
                old(self).edf_system_search_path
            }),
            final(self).parallax_imagestore == (if other.parallax_imagestore is Some {
                other.parallax_imagestore
            } else {
                old(self).parallax_imagestore
            }),
            final(self).parallax_mount_program == (if other.parallax_mount_program is Some {
                other.parallax_mount_program
            } else {
                old(self).parallax_mount_program
            }),
            final(self).parallax_path == (if other.parallax_path is Some {
                other.parallax_path
            } else {
                old(self).parallax_path
            }),
            final(self).perfmon == (if other.perfmon is Some {
                other.perfmon
            } else {
                old(self).perfmon
            }),
            final(self).podman_module == (if other.podman_module is Some {
                other.podman_module
            } else {
                old(self).podman_module
            }),
            final(self).podman_path == (if other.podman_path is Some {
                other.podman_path
            } else {
                old(self).podman_path
            }),
            final(self).podman_tmp_path == (if other.podman_tmp_path is Some {
                other.podman_tmp_path
            } else {
                old(self).podman_tmp_path
            }),
            final(self).runtime_path == (if other.runtime_path is Some {
                other.runtime_path
            } else {
                old(self).runtime_path
            }),
            final(self).skybox_enabled == (if other.skybox_enabled is Some {
                other.skybox_enabled
            } else {
                old(self).skybox_enabled
            }),
            final(self).tracking_enabled == (if other.tracking_enabled is Some {
                other.tracking_enabled
            } else {
                old(self).tracking_enabled
            }),
            final(self).tracking_tool == (if other.tracking_tool is Some {
                other.tracking_tool
            } else {
                old(self).tracking_tool
            }),
    {
        let a = self.edf_system_search_path.take();
        let b = self.parallax_imagestore.take();
        let c = self.parallax_mount_program.take();
        let d = self.parallax_path.take();
        let e = self.podman_module.take();
        let f = self.podman_path.take();
        let g = self.podman_tmp_path.take();
        let h = self.runtime_path.take();
        let t = self.tracking_tool.take();
        let merged = RawConfig {
            edf_system_search_path: merge_cfg_scalar(a, &other.edf_system_search_path),
            parallax_imagestore: merge_cfg_scalar(b, &other.parallax_imagestore),
            parallax_mount_program: merge_cfg_scalar(c, &other.parallax_mount_program),
            parallax_path: merge_cfg_scalar(d, &other.parallax_path),
            perfmon: if other.perfmon.is_some() {
                other.perfmon
            } else {
                self.perfmon
            },
            podman_module: merge_cfg_scalar(e, &other.podman_module),
            podman_path: merge_cfg_scalar(f, &other.podman_path),
            podman_tmp_path: merge_cfg_scalar(g, &other.podman_tmp_path),
            runtime_path: merge_cfg_scalar(h, &other.runtime_path),
            skybox_enabled: if other.skybox_enabled.is_some() {
                other.skybox_enabled
            } else {
                self.skybox_enabled
            },
            tracking_enabled: if other.tracking_enabled.is_some() {
                other.tracking_enabled
            } else {
                self.tracking_enabled
            },
            tracking_tool: merge_cfg_scalar(t, &other.tracking_tool),
        };
        *self = merged;
    }

    /// Expand the variable references of every set string field; a field
    /// whose expansion fails becomes the empty string.
    pub fn expand_fields(&mut self, env: &Option<StrMap>)
        requires
            match env {
                Some(m) => m.wf(),
                None => true,
            },
        ensures
            final(self).edf_system_search_path is Some <==> old(self).edf_system_search_path is Some,
            final(self).parallax_imagestore is Some <==> old(self).parallax_imagestore is Some,
            final(self).parallax_mount_program is Some <==> old(self).parallax_mount_program is Some,
            final(self).parallax_path is Some <==> old(self).parallax_path is Some,
            final(self).podman_module is Some <==> old(self).podman_module is Some,
            final(self).podman_path is Some <==> old(self).podman_path is Some,
            final(self).podman_tmp_path is Some <==> old(self).podman_tmp_path is Some,
            final(self).runtime_path is Some <==> old(self).runtime_path is Some,
            final(self).tracking_tool is Some <==> old(self).tracking_tool is Some,
            final(self).perfmon == old(self).perfmon,
            final(self).skybox_enabled == old(self).skybox_enabled,
            final(self).tracking_enabled == old(self).tracking_enabled,
            match env {
                Some(m) => {
                    &&& opt_expanded(
                        old(self).edf_system_search_path,
                        final(self).edf_system_search_path,
                        m@,
                    )
                    &&& opt_expanded(
                        old(self).parallax_imagestore,
                        final(self).parallax_imagestore,
                        m@,
                    )
                    &&& opt_expanded(
                        old(self).parallax_mount_program,
                        final(self).parallax_mount_program,
                        m@,
                    )
                    &&& opt_expanded(old(self).parallax_path, final(self).parallax_path, m@)
                    &&& opt_expanded(old(self).podman_module, final(self).podman_module, m@)
                    &&& opt_expanded(old(self).podman_path, final(self).podman_path, m@)
                    &&& opt_expanded(old(self).podman_tmp_path, final(self).podman_tmp_path, m@)
                    &&& opt_expanded(old(self).runtime_path, final(self).runtime_path, m@)
                    &&& opt_expanded(old(self).tracking_tool, final(self).tracking_tool, m@)
                },
                None => true,
            },
    {
        expand_cfg_field(&mut self.edf_system_search_path, env);
        expand_cfg_field(&mut self.parallax_imagestore, env);
        expand_cfg_field(&mut self.parallax_mount_program, env);
        expand_cfg_field(&mut self.parallax_path, env);
        expand_cfg_field(&mut self.podman_module, env);
        expand_cfg_field(&mut self.podman_path, env);
        expand_cfg_field(&mut self.podman_tmp_path, env);
        expand_cfg_field(&mut self.runtime_path, env);
        expand_cfg_field(&mut self.tracking_tool, env);
    }
}

/// The relation between a configuration field and its expansion: a set
/// field becomes its expansion, or the empty string where that fails.
pub open spec fn opt_expanded(
    before: Option<String>,
    after: Option<String>,
    env: Map<Seq<char>, Seq<char>>,
) -> bool {
    match before {
        None => after is None,
        Some(s) => after matches Some(t) && t@ == (match expand_hardened(s@, env) {
            Ok(x) => x,
            Err(_) => Seq::<char>::empty(),
        }),
    }
}

fn expand_cfg_field(o: &mut Option<String>, env: &Option<StrMap>)
    requires
        match env {
            Some(m) => m.wf(),
            None => true,
        },
    ensures
        *final(o) is Some <==> *old(o) is Some,
        match env {
            Some(m) => opt_expanded(*old(o), *final(o), m@),
            None => true,
        },
{
    match o.take() {
        Some(s) => {
            match expand_vars_string(s, env) {
                Ok(t) => {
                    *o = Some(t);
                },
                Err(_) => {
                    *o = Some(String::new());
                },
            }
        },
        None => {},
    }
}

impl Config {
    /// The effective settings of a merged fragment, defaults filling every
    /// unset field.
    pub fn from_raw(r: RawConfig) -> (c: Config)
        ensures
            c.edf_system_search_path@ == crate::resolve::str_or(
                r.edf_system_search_path,
                "/etc/edf"@,
            ),
            c.parallax_imagestore@ == crate::resolve::str_or(r.parallax_imagestore, Seq::empty()),
            c.parallax_mount_program@ == crate::resolve::str_or(
                r.parallax_mount_program,
                Seq::empty(),
            ),
            c.parallax_path@ == crate::resolve::str_or(r.parallax_path, "parallax"@),
            c.perfmon == crate::resolve::bool_or(r.perfmon, false),
            c.podman_module@ == crate::resolve::str_or(r.podman_module, "hpc"@),
            c.podman_path@ == crate::resolve::str_or(r.podman_path, "podman"@),
            c.podman_tmp_path@ == crate::resolve::str_or(r.podman_tmp_path, "/dev/shm"@),
            c.runtime_path@ == crate::resolve::str_or(r.runtime_path, "crun"@),
            c.skybox_enabled == crate::resolve::bool_or(r.skybox_enabled, false),
            c.tracking_enabled == crate::resolve::bool_or(r.tracking_enabled, false),
            c.tracking_tool@ == crate::resolve::str_or(r.tracking_tool, Seq::empty()),
    {
        Config {
            edf_system_search_path: match r.edf_system_search_path {
                Some(s) => s,
                None => String::from_str("/etc/edf"),
            },
            parallax_imagestore: match r.parallax_imagestore {
                Some(s) => s,
                None => String::new(),
            },
            parallax_mount_program: match r.parallax_mount_program {
                Some(s) => s,
                None => String::new(),
            },
            parallax_path: match r.parallax_path {
                Some(s) => s,
                None => String::from_str("parallax"),
            },
            perfmon: match r.perfmon {
                Some(b) => b,
                None => false,
            },
            podman_module: match r.podman_module {
                Some(s) => s,
                None => String::from_str("hpc"),
            },
            podman_path: match r.podman_path {
                Some(s) => s,
                None => String::from_str("podman"),
            },
            podman_tmp_path: match r.podman_tmp_path {
                Some(s) => s,
                None => String::from_str("/dev/shm"),
            },
            runtime_path: match r.runtime_path {
                Some(s) => s,
                None => String::from_str("crun"),
            },
            skybox_enabled: match r.skybox_enabled {
                Some(b) => b,
                None => false,
            },
            tracking_enabled: match r.tracking_enabled {
                Some(b) => b,
                None => false,
            },
            tracking_tool: match r.tracking_tool {
                Some(s) => s,
                None => String::new(),
            },
        }
    }
}

/// The string value an annotation key dictates, or the old value where
/// the key is absent.
pub open spec fn anno_override(
    m: Map<Seq<char>, Seq<char>>,
    key: Seq<char>,
    old_v: Seq<char>,
) -> Seq<char> {
    if m.dom().contains(key) {
        m[key]
    } else {
        old_v
    }
}

/// The boolean an annotation key dictates: `true` or `false` switch it,
/// any other value and an absent key leave the old one.
pub open spec fn anno_override_bool(
    m: Map<Seq<char>, Seq<char>>,
    key: Seq<char>,
    old_b: bool,
) -> bool {
    if m.dom().contains(key) {
        if m[key] == "true"@ {
            true
        } else if m[key] == "false"@ {
            false
        } else {
            old_b
        }
    } else {
        old_b
    }
}

fn override_str(c: &mut String, annos: &StrMap, key: &str)
    requires
        annos.wf(),
    ensures
        final(c)@ == anno_override(annos@, key@, old(c)@),
{
    match annos.get(key) {
        Some(v) => {
            *c = v;
        },
        None => {},
    }
}

fn override_bool(c: &mut bool, annos: &StrMap, key: &str)
    requires
        annos.wf(),
    ensures
        *final(c) == anno_override_bool(annos@, key@, *old(c)),
{
    match annos.get(key) {
        Some(v) => {
            if str_eq(v.as_str(), "true") {
                *c = true;
            } else if str_eq(v.as_str(), "false") {
                *c = false;
            }
        },
        None => {},
    }
}

/// Overwrite single settings with the values that well-known annotation
/// keys of the finalized environment dictate.
pub fn update_config_by_user(config: &mut Config, edf: EDF)
    requires
        edf.wf(),
    ensures
        final(config).edf_system_search_path == old(config).edf_system_search_path,
        final(config).parallax_imagestore@ == anno_override(
            edf.annotations@,
            "com.sarus.parallax_imagestore"@,
            old(config).parallax_imagestore@,
        ),
        final(config).parallax_mount_program@ == anno_override(
            edf.annotations@,
            "com.sarus.parallax_mount_program"@,
            old(config).parallax_mount_program@,
        ),
        final(config).parallax_path@ == anno_override(
            edf.annotations@,
            "com.sarus.parallax_path"@,
            old(config).parallax_path@,
        ),
        final(config).perfmon == anno_override_bool(
            edf.annotations@,
            "com.sarus.perfmon"@,
            old(config).perfmon,
        ),
        final(config).podman_module@ == anno_override(
            edf.annotations@,
            "com.sarus.podman_module"@,
            old(config).podman_module@,
        ),
        final(config).podman_path@ == anno_override(
            edf.annotations@,
            "com.sarus.podman_path"@,
            old(config).podman_path@,
        ),
        final(config).podman_tmp_path@ == anno_override(
            edf.annotations@,
            "com.sarus.podman_tmp_path"@,
            old(config).podman_tmp_path@,
        ),
        final(config).runtime_path@ == anno_override(
            edf.annotations@,
            "com.sarus.runtime_path"@,
            old(config).runtime_path@,
        ),
        final(config).skybox_enabled == anno_override_bool(
            edf.annotations@,
            "com.sarus.skybox_enabled"@,
            old(config).skybox_enabled,
        ),
        final(config).tracking_enabled == anno_override_bool(
            edf.annotations@,
            "com.sarus.tracking_enabled"@,
            old(config).tracking_enabled,
        ),
        final(config).tracking_tool@ == anno_override(
            edf.annotations@,
            "com.sarus.tracking_tool"@,
            old(config).tracking_tool@,
        ),
{
    override_str(&mut config.parallax_imagestore, &edf.annotations, "com.sarus.parallax_imagestore");
    override_str(
        &mut config.parallax_mount_program,
        &edf.annotations,
        "com.sarus.parallax_mount_program",
    );
    override_str(&mut config.parallax_path, &edf.annotations, "com.sarus.parallax_path");
    override_bool(&mut config.perfmon, &edf.annotations, "com.sarus.perfmon");
    override_str(&mut config.podman_module, &edf.annotations, "com.sarus.podman_module");
    override_str(&mut config.podman_path, &edf.annotations, "com.sarus.podman_path");
    override_str(&mut config.podman_tmp_path, &edf.annotations, "com.sarus.podman_tmp_path");
    override_str(&mut config.runtime_path, &edf.annotations, "com.sarus.runtime_path");
    override_bool(&mut config.skybox_enabled, &edf.annotations, "com.sarus.skybox_enabled");
    override_bool(&mut config.tracking_enabled, &edf.annotations, "com.sarus.tracking_enabled");
    override_str(&mut config.tracking_tool, &edf.annotations, "com.sarus.tracking_tool");
}

/// The system search-path entries: the configured colon-separated list,
/// split; an empty setting contributes none.
pub fn get_sys_search_paths(config: &Config) -> (r: Vec<String>)
    ensures
        config.edf_system_search_path@.len() == 0 ==> r@.len() == 0,
        config.edf_system_search_path@.len() > 0 ==> r@.map_values(|s: String| s@) == split_seq(
            config.edf_system_search_path@,
            ':',
        ),
{
    let mut out: Vec<String> = Vec::new();
    if config.edf_system_search_path.as_str().unicode_len() == 0 {
        return out;
    }
    let chars = crate::strutil::str_to_chars(config.edf_system_search_path.as_str());
    let parts = crate::strutil::split_chars(&chars, ':');
    let mut i: usize = 0;
    while i < parts.len()
        invariant
            i <= parts@.len(),
            out@.len() == i,
            forall|j: int| 0 <= j < i ==> #[trigger] out@[j]@ == views(parts@)[j],
        decreases parts@.len() - i,
    {
        out.push(crate::strutil::chars_to_string(&parts[i]));
        i = i + 1;
    }
    proof {
        assert(out@.map_values(|s: String| s@) =~= views(parts@));
    }
    out
}

/// The full search-path list: the user entries first, then the system
/// entries from the configuration.
pub fn get_search_paths(user_paths: Vec<String>, config: &Config) -> (r: Vec<String>)
    ensures
        config.edf_system_search_path@.len() == 0 ==> crate::resolve::strs(r)
            == crate::resolve::strs(user_paths),
        config.edf_system_search_path@.len() > 0 ==> crate::resolve::strs(r)
            == crate::resolve::strs(user_paths) + split_seq(
            config.edf_system_search_path@,
            ':',
        ),
{
    let mut out = user_paths;
    let ghost before = crate::resolve::strs(out);
    let mut sys = get_sys_search_paths(config);
    let ghost sys_v = out@;
    out.append(&mut sys);
    proof {
        if config.edf_system_search_path@.len() == 0 {
            assert(crate::resolve::strs(out) =~= before);
        } else {
            assert(crate::resolve::strs(out) =~= before + split_seq(
                config.edf_system_search_path@,
                ':',
            ));
        }
    }
    out
}

} // verus!
