//! The capability manifest: the policy document that says what a plugin may
//! touch, and its structural validation.

use vstd::prelude::*;
use vstd::string::StringExecFns;
use crate::jsonval::{
    manifest_doc_fs_kind, manifest_doc_patterns, manifest_doc_strings, parse_doc_fs_kind,
    parse_doc_patterns, parse_doc_strings,
};
use crate::pattern::{glob_compile_error, glob_ok};
use crate::textenc::{escape_string, push_escaped};

verus! {

/// Filesystem capability grant: glob patterns for readable paths, and a
/// reserved grant for writable paths that no decision point consumes yet.
#[derive(Debug, Clone)]
pub struct FsCapability {
    pub read: Option<Vec<String>>,
    pub write: Option<Vec<String>>,
}

/// A single capability kind. Only the filesystem kind exists; the manifest
/// format reserves room for further kinds.
#[derive(Debug)]
pub enum Capability {
    Fs(FsCapability),
}

/// The set of capability grants a manifest can carry.
#[derive(Debug, Clone)]
pub struct Capabilities {
    pub fs: Option<FsCapability>,
}

/// A capability policy document: which plugin it governs, the policy version,
/// the grants, and the issuing authority.
#[derive(Debug, Clone)]
pub struct CapabilityManifest {
    pub plugin: String,
    pub version: String,
    pub capabilities: Capabilities,
    pub issued_by: String,
}

/// Errors from manifest loading and validation.
#[derive(Debug)]
pub enum ManifestError {
    /// The policy document is not JSON of the expected shape.
    Deserialize(String),
    /// `plugin` is empty.
    InvalidPlugin,
    /// `version` is empty.
    InvalidVersion,
    /// `issued_by` is empty.
    InvalidIssuer,
    /// A declared read pattern does not compile under the glob dialect.
    InvalidGlob { idx: usize, pattern: String, err: String },
}

/// The declared read patterns, if the manifest grants a filesystem capability
/// that declares any.
pub open spec fn spec_read_patterns(m: CapabilityManifest) -> Option<Seq<Seq<char>>> {
    match m.capabilities.fs {
        Some(fs_cap) => match fs_cap.read {
            Some(pats) => Some(pats.deep_view()),
            None => None,
        },
        None => None,
    }
}

/// A validated manifest: the three identifier fields are non-empty and every
/// declared read pattern compiles under the glob dialect.
pub open spec fn spec_manifest_valid(m: CapabilityManifest) -> bool {
    &&& m.plugin@.len() > 0
    &&& m.version@.len() > 0
    &&& m.issued_by@.len() > 0
    &&& match spec_read_patterns(m) {
        Some(pats) => forall|i: int| 0 <= i < pats.len() ==> glob_ok(#[trigger] pats[i]),
        None => true,
    }
}

// ---------------------------------------------------------------------------
// Canonical serialization, the input to the policy fingerprint
// ---------------------------------------------------------------------------

/// A quoted, escaped JSON string.
pub open spec fn render_str(s: Seq<char>) -> Seq<char> {
    seq!['"'] + escape_string(s) + seq!['"']
}

/// A comma-separated run of quoted strings.
pub open spec fn render_str_list(ps: Seq<Seq<char>>) -> Seq<char>
    decreases ps.len(),
{
    if ps.len() <= 1 {
        if ps.len() == 0 {
            Seq::empty()
        } else {
            render_str(ps[0])
        }
    } else {
        render_str(ps[0]) + ","@ + render_str_list(ps.drop_first())
    }
}

/// An optional pattern list: a JSON array, or `null` when absent.
pub open spec fn render_opt_list(o: Option<Seq<Seq<char>>>) -> Seq<char> {
    match o {
        None => "null"@,
        Some(ps) => "["@ + render_str_list(ps) + "]"@,
    }
}

/// The declared write patterns, if any (a reserved grant; nothing enforces
/// it yet).
pub open spec fn spec_write_patterns(m: CapabilityManifest) -> Option<Seq<Seq<char>>> {
    match m.capabilities.fs {
        Some(fs_cap) => match fs_cap.write {
            Some(pats) => Some(pats.deep_view()),
            None => None,
        },
        None => None,
    }
}

/// The canonical compact JSON text of a manifest: the four fields in a fixed
/// order. The policy fingerprint is a hash of exactly this text.
pub open spec fn render_manifest(m: CapabilityManifest) -> Seq<char> {
    "{\"plugin\":"@ + render_str(m.plugin@) + ",\"version\":"@ + render_str(m.version@)
        + ",\"capabilities\":{\"fs\":"@ + (match m.capabilities.fs {
        None => "null"@,
        Some(_) => "{\"read\":"@ + render_opt_list(spec_read_patterns(m)) + ",\"write\":"@
            + render_opt_list(spec_write_patterns(m)) + "}"@,
    }) + "},\"issued_by\":"@ + render_str(m.issued_by@) + "}"@
}

/// Appends a quoted, escaped string.
fn push_str_json(out: &mut String, s: &str)
    ensures
        final(out)@ == old(out)@ + render_str(s@),
{
    out.append("\"");
    push_escaped(out, s);
    out.append("\"");
    proof {
        reveal_strlit("\"");
        assert(out@ =~= old(out)@ + render_str(s@));
    }
}

/// Appending one more string to a non-empty list appends a separator and the
/// quoted string.
proof fn lemma_render_str_list_push(ps: Seq<Seq<char>>, p: Seq<char>)
    requires
        ps.len() >= 1,
    ensures
        render_str_list(ps.push(p)) == render_str_list(ps) + ","@ + render_str(p),
    decreases ps.len(),
{
    if ps.len() == 1 {
        assert(ps.push(p).drop_first() =~= seq![p]);
        assert(render_str_list(seq![p]) == render_str(p));
        assert(ps.push(p)[0] == ps[0]);
    } else {
        lemma_render_str_list_push(ps.drop_first(), p);
        assert(ps.push(p).drop_first() =~= ps.drop_first().push(p));
        assert(ps.push(p)[0] == ps[0]);
        assert(render_str(ps[0]) + ","@ + (render_str_list(ps.drop_first()) + ","@ + render_str(
            p,
        )) =~= (render_str(ps[0]) + ","@ + render_str_list(ps.drop_first())) + ","@ + render_str(
            p,
        ));
    }
}

/// Appends an optional pattern list.
fn push_opt_list(out: &mut String, o: &Option<Vec<String>>)
    ensures
        final(out)@ == old(out)@ + render_opt_list(
            match *o {
                Some(ps) => Some(ps.deep_view()),
                None => None,
            },
        ),
{
    match o {
        None => {
            out.append("null");
        },
        Some(ps) => {
            let ghost views = ps.deep_view();
            out.append("[");
            let n = ps.len();
            let mut i: usize = 0;
            while i < n
                invariant
                    i <= n,
                    n == ps@.len(),
                    views == ps.deep_view(),
                    out@ == old(out)@ + "["@ + render_str_list(views.take(i as int)),
                decreases n - i,
            {
                proof {
                    assert(views[i as int] == ps@[i as int]@);
                }
                if i > 0 {
                    out.append(",");
                    push_str_json(out, ps[i].as_str());
                    proof {
                        lemma_render_str_list_push(views.take(i as int), views[i as int]);
                        assert(views.take(i + 1) =~= views.take(i as int).push(views[i as int]));
                        assert(out@ =~= old(out)@ + "["@ + render_str_list(views.take(i + 1)));
                    }
                } else {
                    push_str_json(out, ps[i].as_str());
                    proof {
                        assert(views.take(1) =~= seq![views[0]]);
                        assert(render_str_list(seq![views[0]]) == render_str(views[0]));
                        assert(out@ =~= old(out)@ + "["@ + render_str_list(views.take(1)));
                    }
                }
                i = i + 1;
            }
            out.append("]");
            proof {
                assert(views.take(n as int) =~= views);
                assert(out@ =~= old(out)@ + ("["@ + render_str_list(views) + "]"@));
            }
        },
    }
    proof {
        assert(out@ =~= old(out)@ + render_opt_list(
            match *o {
                Some(ps) => Some(ps.deep_view()),
                None => None,
            },
        ));
    }
}

/// Serializes a manifest to its canonical compact JSON text.
pub fn render_manifest_json(m: &CapabilityManifest) -> (r: String)
    ensures
        r@ == render_manifest(*m),
{
    let mut out = String::new();
    out.append("{\"plugin\":");
    push_str_json(&mut out, m.plugin.as_str());
    out.append(",\"version\":");
    push_str_json(&mut out, m.version.as_str());
    out.append(",\"capabilities\":{\"fs\":");
    match &m.capabilities.fs {
        None => {
            out.append("null");
        },
        Some(fs_cap) => {
            out.append("{\"read\":");
            push_opt_list(&mut out, &fs_cap.read);
            out.append(",\"write\":");
            push_opt_list(&mut out, &fs_cap.write);
            out.append("}");
            proof {
                assert(spec_read_patterns(*m) == (match fs_cap.read {
                    Some(ps) => Some(ps.deep_view()),
                    None => None::<Seq<Seq<char>>>,
                }));
                assert(spec_write_patterns(*m) == (match fs_cap.write {
                    Some(ps) => Some(ps.deep_view()),
                    None => None::<Seq<Seq<char>>>,
                }));
            }
        },
    }
    out.append("},\"issued_by\":");
    push_str_json(&mut out, m.issued_by.as_str());
    out.append("}");
    proof {
        assert(out@ =~= render_manifest(*m));
    }
    out
}

/// The number of declared read patterns.
pub open spec fn spec_read_pattern_count(m: CapabilityManifest) -> nat {
    match spec_read_patterns(m) {
        Some(ps) => ps.len(),
        None => 0,
    }
}

impl CapabilityManifest {
    /// Validates the manifest: non-empty identifier fields and compilable
    /// read patterns, first failing rule short-circuiting.
    pub fn validate(&self) -> (r: Result<(), ManifestError>)
        ensures
            r is Ok <==> spec_manifest_valid(*self),
            match r {
                Ok(()) => true,
                Err(ManifestError::InvalidPlugin) => self.plugin@.len() == 0,
                Err(ManifestError::InvalidVersion) => self.plugin@.len() > 0 && self.version@.len() == 0,
                Err(ManifestError::InvalidIssuer) => self.plugin@.len() > 0 && self.version@.len() > 0
                    && self.issued_by@.len() == 0,
                Err(ManifestError::InvalidGlob { idx, pattern, err: _ }) => {
                    &&& self.plugin@.len() > 0
                    &&& self.version@.len() > 0
                    &&& self.issued_by@.len() > 0
                    &&& spec_read_patterns(*self) matches Some(pats)
                        && idx < pats.len()
                        && !glob_ok(pats[idx as int])
                        && pattern@ == pats[idx as int]
                        && (forall|j: int| 0 <= j < idx ==> glob_ok(#[trigger] pats[j]))
                },
                Err(ManifestError::Deserialize(_)) => false,
            },
    {
        if self.plugin.as_str().is_empty() {
            return Err(ManifestError::InvalidPlugin);
        }
        if self.version.as_str().is_empty() {
            return Err(ManifestError::InvalidVersion);
        }
        if self.issued_by.as_str().is_empty() {
            return Err(ManifestError::InvalidIssuer);
        }
        if let Some(fs_cap) = &self.capabilities.fs {
            if let Some(read_patterns) = &fs_cap.read {
                let ghost pats = read_patterns.deep_view();
                let n = read_patterns.len();
                let mut idx: usize = 0;
                while idx < n
                    invariant
                        self.plugin@.len() > 0,
                        self.version@.len() > 0,
                        self.issued_by@.len() > 0,
                        spec_read_patterns(*self) == Some(pats),
                        pats == read_patterns.deep_view(),
                        n == read_patterns@.len(),
                        idx <= n,
                        forall|j: int| 0 <= j < idx ==> glob_ok(#[trigger] pats[j]),
                    decreases n - idx,
                {
                    let pattern = &read_patterns[idx];
                    proof {
                        assert(pats[idx as int] == read_patterns@[idx as int]@);
                    }
                    if let Some(err) = glob_compile_error(pattern.as_str()) {
                        return Err(ManifestError::InvalidGlob {
                            idx,
                            pattern: pattern.clone(),
                            err,
                        });
                    }
                    idx += 1;
                }
            }
        }
        Ok(())
    }
}

// ---------------------------------------------------------------------------
// Loading a policy document
// ---------------------------------------------------------------------------

/// The mathematical image of a policy document's filesystem grant block.
pub ghost struct FsDocV {
    pub read: Option<Seq<Seq<char>>>,
    pub write: Option<Seq<Seq<char>>>,
}

/// The mathematical image of a policy document: the plain values it
/// deserializes to.
pub ghost struct ManifestDocV {
    pub plugin: Seq<char>,
    pub version: Seq<char>,
    pub issued_by: Seq<char>,
    pub fs: Option<FsDocV>,
}

/// What the policy document deserializes to, assembled from the named
/// document queries: the three identifier strings, and the grant block when
/// `capabilities.fs` is an object — nothing, when any part is malformed.
pub open spec fn spec_manifest_doc(s: Seq<char>) -> Option<ManifestDocV> {
    match (manifest_doc_strings(s), manifest_doc_fs_kind(s)) {
        (Some(t), Some(has_fs)) => if !has_fs {
            Some(ManifestDocV { plugin: t.0, version: t.1, issued_by: t.2, fs: None })
        } else {
            match (manifest_doc_patterns(s, "read"@), manifest_doc_patterns(s, "write"@)) {
                (Some(r), Some(w)) => Some(
                    ManifestDocV {
                        plugin: t.0,
                        version: t.1,
                        issued_by: t.2,
                        fs: Some(FsDocV { read: r, write: w }),
                    },
                ),
                _ => None,
            }
        },
        _ => None,
    }
}

/// The view of an optional pattern list.
pub open spec fn opt_patterns_view(o: Option<Vec<String>>) -> Option<Seq<Seq<char>>> {
    match o {
        Some(v) => Some(v.deep_view()),
        None => None,
    }
}

/// Whether manifest `m` is the in-memory form of document image `d`.
pub open spec fn manifest_matches_doc(m: CapabilityManifest, d: ManifestDocV) -> bool {
    &&& m.plugin@ == d.plugin
    &&& m.version@ == d.version
    &&& m.issued_by@ == d.issued_by
    &&& match (m.capabilities.fs, d.fs) {
        (None, None) => true,
        (Some(f), Some(g)) => opt_patterns_view(f.read) == g.read && opt_patterns_view(f.write)
            == g.write,
        _ => false,
    }
}

/// Validity of a document image: exactly what `validate` accepts of the
/// manifest built from it.
pub open spec fn spec_doc_valid(d: ManifestDocV) -> bool {
    &&& d.plugin.len() > 0
    &&& d.version.len() > 0
    &&& d.issued_by.len() > 0
    &&& match d.fs {
        Some(f) => match f.read {
            Some(ps) => forall|i: int| 0 <= i < ps.len() ==> glob_ok(#[trigger] ps[i]),
            None => true,
        },
        None => true,
    }
}

/// Parses a policy document and validates it: deserialization composed with
/// `validate`, each failure kept distinct. `Ok` is owed exactly when the
/// document deserializes to the manifest shape and the result validates;
/// the returned manifest carries exactly the document's fields, and a
/// failure names its stage — `Deserialize` for text and shape, the
/// validator's own error otherwise.
pub fn load_manifest(json: &str) -> (r: Result<CapabilityManifest, ManifestError>)
    ensures
        r is Ok <==> (spec_manifest_doc(json@) matches Some(d) && spec_doc_valid(d)),
        r matches Ok(m) ==> (spec_manifest_doc(json@) matches Some(d) && manifest_matches_doc(
            m,
            d,
        ) && spec_manifest_valid(m)),
        spec_manifest_doc(json@) is None <==> (r matches Err(e) && e is Deserialize),
        spec_manifest_doc(json@) matches Some(d) ==> match r {
            Ok(_) => spec_doc_valid(d),
            Err(ManifestError::InvalidPlugin) => d.plugin.len() == 0,
            Err(ManifestError::InvalidVersion) => d.plugin.len() > 0 && d.version.len() == 0,
            Err(ManifestError::InvalidIssuer) => d.plugin.len() > 0 && d.version.len() > 0
                && d.issued_by.len() == 0,
            Err(ManifestError::InvalidGlob { idx, pattern, err: _ }) => {
                &&& d.plugin.len() > 0
                &&& d.version.len() > 0
                &&& d.issued_by.len() > 0
                &&& d.fs matches Some(f) && f.read matches Some(ps) && idx < ps.len() && !glob_ok(
                    ps[idx as int],
                ) && pattern@ == ps[idx as int] && (forall|j: int|
                    0 <= j < idx ==> glob_ok(#[trigger] ps[j]))
            },
            Err(ManifestError::Deserialize(_)) => false,
        },
{
    let strings = match parse_doc_strings(json) {
        Some(t) => t,
        None => {
            return Err(ManifestError::Deserialize(String::from_str(
                "document does not deserialize to the manifest shape",
            )));
        },
    };
    let (plugin, version, issued_by) = strings;
    let fs = match parse_doc_fs_kind(json) {
        None => {
            return Err(ManifestError::Deserialize(String::from_str(
                "document does not deserialize to the manifest shape",
            )));
        },
        Some(false) => None,
        Some(true) => {
            let read = match parse_doc_patterns(json, "read") {
                Some(o) => o,
                None => {
                    return Err(ManifestError::Deserialize(String::from_str(
                        "document does not deserialize to the manifest shape",
                    )));
                },
            };
            let write = match parse_doc_patterns(json, "write") {
                Some(o) => o,
                None => {
                    return Err(ManifestError::Deserialize(String::from_str(
                        "document does not deserialize to the manifest shape",
                    )));
                },
            };
            Some(FsCapability { read, write })
        },
    };
    let manifest = CapabilityManifest { plugin, version, capabilities: Capabilities { fs }, issued_by };
    let ghost d = spec_manifest_doc(json@)->Some_0;
    proof {
        assert(spec_manifest_doc(json@) is Some);
        assert(manifest_matches_doc(manifest, d));
        assert(spec_read_patterns(manifest) == (match d.fs {
            Some(f) => f.read,
            None => None::<Seq<Seq<char>>>,
        }));
        assert(spec_manifest_valid(manifest) <==> spec_doc_valid(d));
    }
    match manifest.validate() {
        Ok(()) => Ok(manifest),
        Err(e) => Err(e),
    }
}

} // verus!
