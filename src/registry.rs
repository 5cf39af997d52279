//! The schema registry gateway: client configuration from a context, version
//! resolution for a subject, and the schema type that a schema file registers as.

use vstd::prelude::*;
use crate::config::{KToolsContext, SchemaRegistryConfig};
use crate::text::{comma_list, decimal, push_chars, push_comma_list, push_decimal, push_str, string_of, chars_of};
use schema_registry_converter::async_impl::schema_registry::{SrSettings, SrSettingsBuilder};
use schema_registry_converter::error::SRCError;

verus! {

#[verifier::external_type_specification]
#[verifier::external_body]
pub struct ExSrSettings(SrSettings);

#[verifier::external_type_specification]
#[verifier::external_body]
pub struct ExSrSettingsBuilder(SrSettingsBuilder);

#[verifier::external_type_specification]
#[verifier::external_body]
pub struct ExSrcError(SRCError);

/// Where a registry is and which basic-auth credentials (user name, optional
/// password) are sent to it.
pub type Endpoint = (Seq<char>, Option<(Seq<char>, Option<Seq<char>>)>);

/// The first registry URL and the basic-auth credentials a builder holds.
pub uninterp spec fn builder_endpoint(b: SrSettingsBuilder) -> (Seq<char>, Option<(Seq<char>, Option<Seq<char>>)>);

/// The first registry URL and the basic-auth credentials that settings send.
pub uninterp spec fn settings_endpoint(s: SrSettings) -> (Seq<char>, Option<(Seq<char>, Option<Seq<char>>)>);

/// The characters of an optional string.
pub open spec fn opt_str_view(s: Option<&str>) -> Option<Seq<char>> {
    match s {
        Some(t) => Some(t@),
        None => None,
    }
}

/// Relies on `SrSettings::new_builder`: a builder for a registry at `url`,
/// without authentication.
pub assume_specification[ SrSettings::new_builder ](url: String) -> (r: SrSettingsBuilder)
    ensures
        builder_endpoint(r) == (url@, None::<(Seq<char>, Option<Seq<char>>)>),
;

/// Relies on `SrSettingsBuilder::set_basic_authorization`: the builder keeps
/// its URL and now holds these credentials.
#[verifier::external_body]
fn set_basic_authorization(builder: &mut SrSettingsBuilder, username: &str, password: Option<&str>)
    ensures
        builder_endpoint(*final(builder)) == (builder_endpoint(*old(builder)).0, Some((username@, opt_str_view(password)))),
{
    builder.set_basic_authorization(username, password);
}

/// Relies on `SrSettingsBuilder::build`: settings with the builder's URLs and
/// credentials, or the reason the HTTP client could not be made.
#[verifier::external_body]
fn build_settings(builder: &mut SrSettingsBuilder) -> (r: Result<SrSettings, SRCError>)
    ensures
        r is Ok ==> settings_endpoint(r->Ok_0) == builder_endpoint(*old(builder)),
{
    builder.build()
}

/// The URL of a registry section and the credentials it asks for.
pub open spec fn section_endpoint(c: SchemaRegistryConfig) -> Endpoint {
    (c.url@, match c.basic_auth {
        Some(a) => Some((a.username@, match a.password {
            Some(p) => Some(p@),
            None => None,
        })),
        None => None,
    })
}

/// Why a client could not be set up from a context.
pub enum ConfigError {
    /// The context has no Kafka section.
    MissingKafka,
    /// The context has no schema registry section.
    MissingRegistry,
    /// The registry's HTTP client could not be built.
    Client(SRCError),
}

/// Why a subject's schema could not be resolved.
#[derive(Debug)]
pub enum ResolutionError {
    /// The subject has no versions at all.
    NoVersions { subject: String },
    /// The requested version is not one of the subject's versions, which are listed.
    UnknownVersion { subject: String, version: u32, versions: Vec<u32> },
}

/// The user-facing text of an unknown-version error.
pub open spec fn unknown_version_text(subject: Seq<char>, version: u32, versions: Seq<u32>) -> Seq<char> {
    "Subject "@ + subject + " does not have version "@ + decimal(version as nat)
        + ". Subject versions: "@ + comma_list(versions) + "."@
}

/// The user-facing text of a no-versions error.
pub open spec fn no_versions_text(subject: Seq<char>) -> Seq<char> {
    "Subject "@ + subject + " has no versions."@
}

/// The user-facing text of a resolution error.
pub open spec fn error_text(e: ResolutionError) -> Seq<char> {
    match e {
        ResolutionError::NoVersions { subject } => no_versions_text(subject@),
        ResolutionError::UnknownVersion { subject, version, versions } => unknown_version_text(
            subject@,
            version,
            versions@,
        ),
    }
}

impl ResolutionError {
    /// The message shown to the user; an unknown version lists the valid ones.
    pub fn message(&self) -> (r: String)
        ensures
            r@ == error_text(*self),
    {
        let mut out: Vec<char> = Vec::new();
        match self {
            ResolutionError::NoVersions { subject } => {
                push_str(&mut out, "Subject ");
                push_chars(&mut out, &chars_of(subject.as_str()));
                push_str(&mut out, " has no versions.");
            },
            ResolutionError::UnknownVersion { subject, version, versions } => {
                push_str(&mut out, "Subject ");
                push_chars(&mut out, &chars_of(subject.as_str()));
                push_str(&mut out, " does not have version ");
                push_decimal(&mut out, *version);
                push_str(&mut out, ". Subject versions: ");
                push_comma_list(&mut out, versions);
                push_str(&mut out, ".");
            },
        }
        string_of(&out)
    }
}

/// The largest of a non-empty sequence of versions.
pub open spec fn latest_version(versions: Seq<u32>) -> u32
    decreases versions.len(),
{
    if versions.len() <= 1 {
        versions[0]
    } else if latest_version(versions.drop_last()) >= versions.last() {
        latest_version(versions.drop_last())
    } else {
        versions.last()
    }
}

/// Strictly increasing, as a registry lists a subject's versions.
pub open spec fn ascending(versions: Seq<u32>) -> bool {
    forall|i: int, j: int| 0 <= i < j < versions.len() ==> versions[i] < versions[j]
}

/// The same versions, each listed at least once.
pub open spec fn same_versions(a: Seq<u32>, b: Seq<u32>) -> bool {
    forall|x: u32| a.contains(x) <==> b.contains(x)
}

/// The versions in increasing order, each once.
pub fn sorted_versions(versions: &Vec<u32>) -> (r: Vec<u32>)
    ensures
        ascending(r@),
        same_versions(r@, versions@),
{
    let mut out: Vec<u32> = Vec::new();
    let mut i: usize = 0;
    while i < versions.len()
        invariant
            i <= versions@.len(),
            ascending(out@),
            same_versions(out@, versions@.subrange(0, i as int)),
        decreases versions@.len() - i,
    {
        let v = versions[i];
        let ghost prefix = versions@.subrange(0, i as int);
        let ghost next = versions@.subrange(0, i + 1);
        assert(next == prefix.push(v));
        let mut p: usize = 0;
        while p < out.len() && out[p] < v
            invariant
                p <= out@.len(),
                forall|k: int| 0 <= k < p ==> out@[k] < v,
            decreases out@.len() - p,
        {
            p = p + 1;
        }
        if p < out.len() && out[p] == v {
            assert forall|x: u32| out@.contains(x) <==> next.contains(x) by {
                if next.contains(x) && x == v {
                    assert(out@[p as int] == x);
                }
                if out@.contains(x) {
                    assert(prefix.contains(x));
                    let k = choose|k: int| 0 <= k < prefix.len() && prefix[k] == x;
                    assert(next[k] == x);
                }
                if next.contains(x) && x != v {
                    let k = choose|k: int| 0 <= k < next.len() && next[k] == x;
                    assert(prefix[k] == x);
                }
            }
        } else {
            let ghost before = out@;
            out.insert(p, v);
            proof { before.insert_ensures(p as int, v); }
            assert forall|a: int, b: int| 0 <= a < b < out@.len() implies out@[a] < out@[b] by {
                if b < p {
                } else if a < p && b == p {
                } else if a < p {
                    assert(out@[b] == before[b - 1]);
                } else if a == p {
                    assert(out@[b] == before[b - 1]);
                    assert(before[p as int] >= v);
                    if b - 1 > p {
                        assert(before[p as int] < before[b - 1]);
                    }
                } else {
                    assert(out@[a] == before[a - 1]);
                    assert(out@[b] == before[b - 1]);
                }
            }
            assert forall|x: u32| out@.contains(x) <==> next.contains(x) by {
                if out@.contains(x) {
                    let k = choose|k: int| 0 <= k < out@.len() && out@[k] == x;
                    if k < p {
                        assert(before[k] == x);
                    } else if k > p {
                        assert(before[k - 1] == x);
                    }
                    if x != v {
                        assert(before.contains(x));
                        assert(prefix.contains(x));
                        let j = choose|j: int| 0 <= j < prefix.len() && prefix[j] == x;
                        assert(next[j] == x);
                    } else {
                        assert(next[i as int] == x);
                    }
                }
                if next.contains(x) {
                    let j = choose|j: int| 0 <= j < next.len() && next[j] == x;
                    if j < i {
                        assert(prefix[j] == x);
                        assert(before.contains(x));
                        let k = choose|k: int| 0 <= k < before.len() && before[k] == x;
                        if k < p {
                            assert(out@[k] == x);
                        } else {
                            assert(out@[k + 1] == x);
                        }
                    } else {
                        assert(out@[p as int] == x);
                    }
                }
            }
        }
        i = i + 1;
    }
    assert(versions@.subrange(0, versions@.len() as int) == versions@);
    out
}

/// Whether `r` is what resolving `requested` against `versions` gives.
pub open spec fn resolves_to(
    subject: Seq<char>,
    versions: Seq<u32>,
    requested: Option<u32>,
    r: Result<u32, ResolutionError>,
) -> bool {
    match requested {
        Some(v) => if versions.contains(v) {
            r == Ok::<u32, ResolutionError>(v)
        } else {
            r matches Err(ResolutionError::UnknownVersion { subject: s, version, versions: listed })
                && s@ == subject && version == v && ascending(listed@) && same_versions(
                listed@,
                versions,
            )
        },
        None => if versions.len() == 0 {
            r matches Err(ResolutionError::NoVersions { subject: s }) && s@ == subject
        } else {
            r == Ok::<u32, ResolutionError>(latest_version(versions))
        },
    }
}

/// Picks the version of `subject` to fetch: the requested one when the
/// subject has it, otherwise the latest.
pub fn select_version(subject: &str, versions: &Vec<u32>, requested: Option<u32>) -> (r: Result<u32, ResolutionError>)
    ensures
        resolves_to(subject@, versions@, requested, r),
{
    match requested {
        Some(v) => {
            let mut i: usize = 0;
            while i < versions.len()
                invariant
                    i <= versions@.len(),
                    requested == Some(v),
                    forall|k: int| 0 <= k < i ==> versions@[k] != v,
                decreases versions@.len() - i,
            {
                if versions[i] == v {
                    assert(versions@[i as int] == v);
                    assert(versions@.contains(v));
                    return Ok(v);
                }
                i = i + 1;
            }
            Err(ResolutionError::UnknownVersion {
                subject: subject.to_owned(),
                version: v,
                versions: sorted_versions(versions),
            })
        },
        None => {
            if versions.len() == 0 {
                return Err(ResolutionError::NoVersions { subject: subject.to_owned() });
            }
            let mut best = versions[0];
            let mut i: usize = 1;
            while i < versions.len()
                invariant
                    1 <= i <= versions@.len(),
                    best == latest_version(versions@.subrange(0, i as int)),
                decreases versions@.len() - i,
            {
                let ghost prefix = versions@.subrange(0, i + 1);
                assert(prefix.drop_last() == versions@.subrange(0, i as int));
                if versions[i] > best {
                    best = versions[i];
                }
                i = i + 1;
            }
            assert(versions@.subrange(0, versions@.len() as int) == versions@);
            Ok(best)
        },
    }
}

/// Resolving without a version, on a subject whose versions are listed in
/// increasing order, gives the last version listed.
pub proof fn lemma_unversioned_resolves_to_last(
    subject: Seq<char>,
    versions: Seq<u32>,
    r: Result<u32, ResolutionError>,
)
    requires
        versions.len() > 0,
        ascending(versions),
        resolves_to(subject, versions, None, r),
    ensures
        r == Ok::<u32, ResolutionError>(versions.last()),
{
    lemma_latest_of_ascending_is_last(versions);
}

/// Resolving a version that the subject does not have fails, and the error's
/// message lists the subject's versions in increasing order, each once and
/// nothing else.
pub proof fn lemma_unknown_version_lists_versions(
    subject: Seq<char>,
    versions: Seq<u32>,
    v: u32,
    r: Result<u32, ResolutionError>,
)
    requires
        !versions.contains(v),
        resolves_to(subject, versions, Some(v), r),
    ensures
        r is Err,
        exists|listed: Seq<u32>|
            #![trigger comma_list(listed)]
            ascending(listed) && same_versions(listed, versions) && error_text(r->Err_0)
                == "Subject "@ + subject + " does not have version "@ + decimal(v as nat)
                + ". Subject versions: "@ + comma_list(listed) + "."@,
{
    let listed = r->Err_0->UnknownVersion_versions@;
    assert(comma_list(listed) == comma_list(listed));
}

/// The latest of strictly increasing versions is the last one listed.
proof fn lemma_latest_of_ascending_is_last(versions: Seq<u32>)
    requires
        versions.len() > 0,
        ascending(versions),
    ensures
        latest_version(versions) == versions.last(),
    decreases versions.len(),
{
    if versions.len() > 1 {
        let init = versions.drop_last();
        lemma_latest_of_ascending_is_last(init);
        assert(init.last() == versions[versions.len() - 2]);
    }
}

/// The type a schema is registered as.
#[derive(Debug, Clone, Copy, PartialEq, Eq, Structural)]
pub enum SchemaKind {
    Avro,
    Json,
    Protobuf,
}

/// Why a schema file cannot be registered.
#[derive(Debug)]
pub enum RegistrationError {
    /// The file name has no extension.
    MissingExtension,
    /// The extension names no supported schema type.
    UnsupportedType { extension: String },
}

/// The position of the last `c` in `s`, or -1.
pub open spec fn last_index_of(s: Seq<char>, c: char) -> int
    decreases s.len(),
{
    if s.len() == 0 {
        -1
    } else if s.last() == c {
        s.len() - 1
    } else {
        last_index_of(s.drop_last(), c)
    }
}

/// The path without its trailing `/` characters.
pub open spec fn without_trailing_slashes(path: Seq<char>) -> Seq<char>
    decreases path.len(),
{
    if path.len() > 0 && path.last() == '/' {
        without_trailing_slashes(path.drop_last())
    } else {
        path
    }
}

/// The last component of a `/`-separated path; trailing separators are ignored.
pub open spec fn file_name(path: Seq<char>) -> Seq<char> {
    let t = without_trailing_slashes(path);
    t.subrange(last_index_of(t, '/') + 1, t.len() as int)
}

/// What follows the last `.` of the file name, unless that `.` begins the name,
/// there is none, or the name is `..`.
pub open spec fn extension(path: Seq<char>) -> Option<Seq<char>> {
    let name = file_name(path);
    let dot = last_index_of(name, '.');
    if dot > 0 && name != ".."@ {
        Some(name.subrange(dot + 1, name.len() as int))
    } else {
        None
    }
}

/// The schema type that a file extension stands for.
pub open spec fn kind_of_extension(ext: Seq<char>) -> Option<SchemaKind> {
    if ext == "avsc"@ {
        Some(SchemaKind::Avro)
    } else if ext == "json"@ {
        Some(SchemaKind::Json)
    } else if ext == "proto"@ {
        Some(SchemaKind::Protobuf)
    } else {
        None
    }
}

proof fn lemma_last_index_bounds(s: Seq<char>, c: char)
    ensures
        -1 <= last_index_of(s, c) < s.len(),
        last_index_of(s, c) >= 0 ==> s[last_index_of(s, c)] == c,
    decreases s.len(),
{
    if s.len() > 0 && s.last() != c {
        lemma_last_index_bounds(s.drop_last(), c);
    }
}

fn find_last(s: &Vec<char>, c: char) -> (r: Option<usize>)
    ensures
        match r {
            Some(i) => i as int == last_index_of(s@, c),
            None => last_index_of(s@, c) == -1,
        },
{
    let mut n: usize = s.len();
    assert(s@.subrange(0, n as int) == s@);
    while n > 0
        invariant
            n <= s@.len(),
            last_index_of(s@, c) == last_index_of(s@.subrange(0, n as int), c),
        decreases n,
    {
        let ghost prefix = s@.subrange(0, n as int);
        assert(prefix.drop_last() == s@.subrange(0, n - 1));
        if s[n - 1] == c {
            return Some(n - 1);
        }
        n = n - 1;
    }
    None
}

fn sub_chars(s: &Vec<char>, from: usize, to: usize) -> (r: Vec<char>)
    requires
        from <= to <= s@.len(),
    ensures
        r@ == s@.subrange(from as int, to as int),
{
    let mut out: Vec<char> = Vec::new();
    let mut i: usize = from;
    while i < to
        invariant
            from <= i <= to <= s@.len(),
            out@ == s@.subrange(from as int, i as int),
        decreases to - i,
    {
        out.push(s[i]);
        assert(s@.subrange(from as int, i + 1) == s@.subrange(from as int, i as int).push(s@[i as int]));
        i = i + 1;
    }
    out
}

/// The schema type of a schema file, from its extension: `.avsc` is Avro,
/// `.json` is JSON schema and `.proto` is Protobuf.
pub fn schema_kind_for(path: &str) -> (r: Result<SchemaKind, RegistrationError>)
    ensures
        match extension(path@) {
            None => r matches Err(RegistrationError::MissingExtension),
            Some(ext) => match kind_of_extension(ext) {
                Some(k) => r == Ok::<SchemaKind, RegistrationError>(k),
                None => r matches Err(RegistrationError::UnsupportedType { extension })
                    && extension@ == ext,
            },
        },
{
    let all = chars_of(path);
    let mut end: usize = all.len();
    assert(all@.subrange(0, end as int) == all@);
    while end > 0 && all[end - 1] == '/'
        invariant
            end <= all@.len(),
            without_trailing_slashes(path@) == without_trailing_slashes(all@.subrange(0, end as int)),
        decreases end,
    {
        assert(all@.subrange(0, end as int).drop_last() == all@.subrange(0, end - 1));
        end = end - 1;
    }
    let chars = sub_chars(&all, 0, end);
    assert(chars@ == without_trailing_slashes(path@));
    proof { lemma_last_index_bounds(chars@, '/'); }
    let start = match find_last(&chars, '/') {
        Some(i) => {
            assert(i < chars.len());
            i + 1
        },
        None => 0,
    };
    let name = sub_chars(&chars, start, chars.len());
    assert(name@ == file_name(path@));
    proof { lemma_last_index_bounds(name@, '.'); }
    let dot = match find_last(&name, '.') {
        Some(d) => d,
        None => { return Err(RegistrationError::MissingExtension); },
    };
    if dot == 0 || crate::text::chars_eq(&name, &chars_of("..")) {
        return Err(RegistrationError::MissingExtension);
    }
    let ext = sub_chars(&name, dot + 1, name.len());
    assert(extension(path@) == Some(ext@));
    if crate::text::chars_eq(&ext, &chars_of("avsc")) {
        Ok(SchemaKind::Avro)
    } else if crate::text::chars_eq(&ext, &chars_of("json")) {
        Ok(SchemaKind::Json)
    } else if crate::text::chars_eq(&ext, &chars_of("proto")) {
        Ok(SchemaKind::Protobuf)
    } else {
        Err(RegistrationError::UnsupportedType { extension: string_of(&ext) })
    }
}

/// A configured connection to the schema registry.
pub struct SchemaRegistryClient {
    settings: SrSettings,
}

impl SchemaRegistryClient {
    /// The registry URL that calls go to and the basic-auth credentials they carry.
    pub closed spec fn endpoint(&self) -> Endpoint {
        settings_endpoint(self.settings)
    }

    /// Builds the registry client from a context: its URL and, when present,
    /// its basic-auth credentials. Fails when the context has no registry section.
    pub fn configure(context: &KToolsContext) -> (r: Result<SchemaRegistryClient, ConfigError>)
        ensures
            context.schema_registry is None <==> r matches Err(ConfigError::MissingRegistry),
            r matches Err(e) ==> (e is MissingRegistry || e is Client),
            r is Ok ==> r->Ok_0.endpoint() == section_endpoint(context.schema_registry->0),
    {
        let registry = match &context.schema_registry {
            Some(registry) => registry,
            None => { return Err(ConfigError::MissingRegistry); },
        };
        let mut builder = SrSettings::new_builder(registry.url.clone());
        match &registry.basic_auth {
            Some(auth) => {
                let password = match &auth.password {
                    Some(p) => Some(p.as_str()),
                    None => None,
                };
                assert(opt_str_view(password) == match auth.password {
                    Some(p) => Some(p@),
                    None => None::<Seq<char>>,
                });
                set_basic_authorization(&mut builder, auth.username.as_str(), password);
            },
            None => {},
        }
        match build_settings(&mut builder) {
            Ok(settings) => Ok(SchemaRegistryClient { settings }),
            Err(e) => Err(ConfigError::Client(e)),
        }
    }

    /// The settings that registry calls are made with.
    pub fn settings(&self) -> &SrSettings {
        &self.settings
    }
}

} // verus!
