//! What makes reusable runtime state interchangeable.

use vstd::prelude::*;
use vstd::string::*;

use crate::models::backend::GgmlCpuGraphBackend;
use crate::models::options::GgmlAsrExecutionOptions;

verus! {

/// Stable cache and engine identity for reusable native runtime state.
///
/// The content id is a content proof, never a bare path. Two identities with the same
/// content id, route and options fingerprint are always interchangeable: there is no
/// generation in it that could make equal state look stale.
#[derive(Debug, Clone, Eq, Hash)]
pub struct RuntimeBuildIdentity {
    /// `sha256:<hex>` for real pack bytes, or an explicit verified id.
    pub pack_content_id: String,
    /// Resolved execution route (family and backend lane) that owns the graph shape.
    pub route: String,
    /// What changes the lowered graph without changing pack bytes.
    pub options_fingerprint: String,
}

/// A [`RuntimeBuildIdentity`] as a value.
#[verifier::ext_equal]
pub struct BuildIdentity {
    pub pack_content_id: Seq<char>,
    pub route: Seq<char>,
    pub options_fingerprint: Seq<char>,
}

impl View for RuntimeBuildIdentity {
    type V = BuildIdentity;

    open spec fn view(&self) -> BuildIdentity {
        BuildIdentity {
            pack_content_id: self.pack_content_id@,
            route: self.route@,
            options_fingerprint: self.options_fingerprint@,
        }
    }
}

impl PartialEq for RuntimeBuildIdentity {
    fn eq(&self, other: &Self) -> (same: bool) {
        self.pack_content_id == other.pack_content_id && self.route == other.route
            && self.options_fingerprint == other.options_fingerprint
    }
}

impl vstd::std_specs::cmp::PartialEqSpecImpl for RuntimeBuildIdentity {
    open spec fn obeys_eq_spec() -> bool {
        true
    }

    open spec fn eq_spec(&self, other: &Self) -> bool {
        self@ == other@
    }
}

/// The identity that a request ends up with: its own content id where it carries one,
/// else the given one, on the given route and options.
pub open spec fn resolved_identity(
    request_identity: Option<BuildIdentity>,
    route: Seq<char>,
    options_fingerprint: Seq<char>,
    content_id: Seq<char>,
) -> BuildIdentity {
    BuildIdentity {
        pack_content_id: match request_identity {
            Some(identity) => identity.pack_content_id,
            None => content_id,
        },
        route,
        options_fingerprint,
    }
}

impl RuntimeBuildIdentity {
    pub fn new(pack_content_id: &str, route: &str, options_fingerprint: &str) -> (identity: Self)
        ensures
            identity@ == (BuildIdentity {
                pack_content_id: pack_content_id@,
                route: route@,
                options_fingerprint: options_fingerprint@,
            }),
    {
        RuntimeBuildIdentity {
            pack_content_id: pack_content_id.to_owned(),
            route: route.to_owned(),
            options_fingerprint: options_fingerprint.to_owned(),
        }
    }

    /// Builds the effective identity for one offline request. An explicit content id from
    /// the request is preferred to the caller's.
    pub fn resolve_for_request(
        request_identity: Option<&RuntimeBuildIdentity>,
        route: &str,
        options_fingerprint: &str,
        content_id: &str,
    ) -> (identity: Self)
        ensures
            identity@ == resolved_identity(
                match request_identity {
                    Some(explicit) => Some(explicit@),
                    None => None,
                },
                route@,
                options_fingerprint@,
                content_id@,
            ),
    {
        let pack_content_id: String = match request_identity {
            Some(explicit) => explicit.pack_content_id.clone(),
            None => content_id.to_owned(),
        };
        RuntimeBuildIdentity {
            pack_content_id,
            route: route.to_owned(),
            options_fingerprint: options_fingerprint.to_owned(),
        }
    }

    /// Formats a content id from a lowercase hex sha256 digest.
    pub fn content_id_from_sha256_hex(sha256_hex: &str) -> (content_id: String)
        ensures
            content_id@ == "sha256:"@ + sha256_hex@,
    {
        let mut content_id: String = "sha256:".to_owned();
        content_id.append(sha256_hex);
        content_id
    }

    /// A copy.
    pub(crate) fn duplicate(&self) -> (copy: Self)
        ensures
            copy@ == self@,
    {
        RuntimeBuildIdentity {
            pack_content_id: self.pack_content_id.clone(),
            route: self.route.clone(),
            options_fingerprint: self.options_fingerprint.clone(),
        }
    }
}

/// Fingerprint of the options that change a lowered graph: the active adapter.
pub open spec fn adapter_fingerprint(adapter_path: Option<Seq<char>>) -> Seq<char> {
    match adapter_path {
        Some(path) => "adapter="@ + path,
        None => "adapter=none"@,
    }
}

/// Builds the effective serve-batch and runtime-cache identity for one request, from the
/// content id of the source that the request already holds open.
pub fn serve_batch_build_identity_for_request(
    options: &GgmlAsrExecutionOptions,
    family: &str,
    backend: GgmlCpuGraphBackend,
    content_id: &str,
) -> (identity: RuntimeBuildIdentity)
    ensures
        identity@ == resolved_identity(
            options@.runtime_build_identity,
            family@ + ":"@ + backend.text(),
            adapter_fingerprint(options@.adapter_path),
            content_id@,
        ),
{
    let mut options_fingerprint: String = "adapter=none".to_owned();
    if let Some(path) = &options.adapter_path {
        options_fingerprint = "adapter=".to_owned();
        options_fingerprint.append(path.as_str());
    }
    let mut route: String = family.to_owned();
    route.append(":");
    route.append(backend.name());
    RuntimeBuildIdentity::resolve_for_request(
        options.runtime_build_identity.as_ref(),
        route.as_str(),
        options_fingerprint.as_str(),
        content_id,
    )
}

/// Content decides: with the same route and options, two requests without an identity of
/// their own share one exactly where their packs have the same content.
pub proof fn law_replaced_content_is_another_identity(
    route: Seq<char>,
    options_fingerprint: Seq<char>,
    content_id: Seq<char>,
    replacement: Seq<char>,
)
    ensures
        resolved_identity(None, route, options_fingerprint, content_id) == resolved_identity(
            None,
            route,
            options_fingerprint,
            replacement,
        ) <==> content_id == replacement,
{
}

/// An explicit content id wins over whatever the source holds.
pub proof fn law_explicit_content_wins(
    explicit: BuildIdentity,
    route: Seq<char>,
    options_fingerprint: Seq<char>,
    content_id: Seq<char>,
    other: Seq<char>,
)
    ensures
        resolved_identity(Some(explicit), route, options_fingerprint, content_id)
            == resolved_identity(Some(explicit), route, options_fingerprint, other),
        resolved_identity(
            Some(explicit),
            route,
            options_fingerprint,
            content_id,
        ).pack_content_id == explicit.pack_content_id,
{
}

/// A route and an options fingerprint go into the identity as they are, so that requests on
/// different routes or with different options never share one.
pub proof fn law_routes_and_options_keep_identities_apart(
    a: Option<BuildIdentity>,
    b: Option<BuildIdentity>,
    a_route: Seq<char>,
    b_route: Seq<char>,
    a_options: Seq<char>,
    b_options: Seq<char>,
    a_content: Seq<char>,
    b_content: Seq<char>,
)
    ensures
        resolved_identity(a, a_route, a_options, a_content) == resolved_identity(
            b,
            b_route,
            b_options,
            b_content,
        ) ==> a_route == b_route && a_options == b_options,
        resolved_identity(None, a_route, a_options, a_content).pack_content_id == a_content,
{
}

/// Two adapters have different fingerprints, and an adapter has another one than none has,
/// unless its path reads `none`.
pub proof fn law_adapters_have_fingerprints_of_their_own(a: Seq<char>, b: Seq<char>)
    ensures
        adapter_fingerprint(Some(a)) == adapter_fingerprint(Some(b)) <==> a == b,
        adapter_fingerprint(Some(a)) == adapter_fingerprint(None) <==> a == "none"@,
{
    reveal_strlit("adapter=");
    reveal_strlit("adapter=none");
    reveal_strlit("none");
    let prefix = "adapter="@;
    if prefix + a == prefix + b {
        assert((prefix + a).skip(prefix.len() as int) =~= a);
        assert((prefix + b).skip(prefix.len() as int) =~= b);
    }
    assert("adapter=none"@ =~= prefix + "none"@);
    if prefix + a == "adapter=none"@ {
        assert((prefix + a).skip(prefix.len() as int) =~= a);
        assert((prefix + "none"@).skip(prefix.len() as int) =~= "none"@);
    }
}

/// What a family runs on another backend has another identity, whatever the content of its
/// pack. The route opens with the family, the fingerprint closes with the adapter, and an
/// explicit content id comes before that of the source.
pub proof fn law_identities_follow_family_backend_and_adapter(
    a_options: GgmlAsrExecutionOptions,
    b_options: GgmlAsrExecutionOptions,
    family: &str,
    a_backend: GgmlCpuGraphBackend,
    b_backend: GgmlCpuGraphBackend,
    a_content: &str,
    b_content: &str,
    a: RuntimeBuildIdentity,
    b: RuntimeBuildIdentity,
)
    requires
        call_ensures(
            serve_batch_build_identity_for_request,
            (&a_options, family, a_backend, a_content),
            a,
        ),
        call_ensures(
            serve_batch_build_identity_for_request,
            (&b_options, family, b_backend, b_content),
            b,
        ),
    ensures
        a@.route == b@.route <==> a_backend == b_backend,
        family@.is_prefix_of(a@.route),
        a_options.adapter_path matches Some(path) ==> path@.is_suffix_of(a@.options_fingerprint),
        a_options.runtime_build_identity is None ==> a@.pack_content_id == a_content@,
        a_options.runtime_build_identity matches Some(explicit) ==> a@.pack_content_id
            == explicit@.pack_content_id,
{
    crate::models::backend::law_backends_have_names_of_their_own(a_backend, b_backend);
    let front = family@ + ":"@;
    crate::text::lemma_both_ends(family@, ":"@ + a_backend.text());
    assert(a@.route =~= family@ + (":"@ + a_backend.text()));
    assert(a@.route.skip(front.len() as int) =~= a_backend.text());
    assert(b@.route.skip(front.len() as int) =~= b_backend.text());
    if let Some(path) = a_options.adapter_path {
        crate::text::lemma_both_ends("adapter="@, path@);
    }
}

} // verus!
