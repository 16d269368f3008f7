//! The S3 backend adapter.
//!
//! Construction resolves bucket, region and prefixed configuration
//! entries from catalog metadata and the fileset's storage location,
//! builds an opendal storage operator from them, and wraps it into the
//! generic filesystem delegate.  All resolution logic is verified; the
//! operator construction itself is an opendal call behind trusted
//! wrappers.

use vstd::prelude::*;
use crate::config::{map_of, AppConfig, Catalog, ConfigMap, Fileset};
use crate::error::{ErrorCode, GvfsResult};
use crate::filesystem::FileSystemContext;
use crate::location::{
    find_char_from, has_region, host_present, parse_error_message, parse_location, parseable,
    region_of, spec_host,
};
use crate::strutil::{spec_has_prefix, str_has_prefix, str_suffix_from};

verus! {

/// The key prefix that marks an entry of the application configuration
/// as an S3 backend parameter.
pub open spec fn s3_prefix() -> Seq<char> {
    seq!['s', '3', '-']
}

/// The parameter-map key for the bucket derived from the location.
pub open spec fn bucket_key() -> Seq<char> {
    seq!['b', 'u', 'c', 'k', 'e', 't']
}

/// The parameter-map key for the resolved region.
pub open spec fn region_key() -> Seq<char> {
    seq!['r', 'e', 'g', 'i', 'o', 'n']
}

/// The catalog property naming the region explicitly.
pub open spec fn region_prop_key() -> Seq<char> {
    seq!['s', '3', '-', 'r', 'e', 'g', 'i', 'o', 'n']
}

/// The catalog property naming the endpoint.
pub open spec fn endpoint_prop_key() -> Seq<char> {
    seq!['s', '3', '-', 'e', 'n', 'd', 'p', 'o', 'i', 'n', 't']
}

/// The message bucket extraction fails with on a location it rejects:
/// the parse error's own message, propagated unchanged, or the
/// missing-bucket message naming the location.
pub open spec fn bucket_error_message(loc: Seq<char>) -> Seq<char> {
    if !parseable(loc) {
        parse_error_message(loc)
    } else {
        "Invalid fileset location without bucket: "@ + loc
    }
}

/// The message region extraction fails with on a location it rejects:
/// the parse or missing-bucket message as for bucket extraction, or the
/// missing-region message naming the location.
pub open spec fn region_error_message(loc: Seq<char>) -> Seq<char> {
    if !parseable(loc) {
        parse_error_message(loc)
    } else if spec_host(loc).len() == 0 {
        "Invalid fileset location without bucket: "@ + loc
    } else {
        "Invalid location: expected region in host, got "@ + loc
    }
}

/// The message region resolution fails with on a catalog it fails on:
/// the region-extraction error of the endpoint, propagated unchanged, or
/// the no-property message naming the catalog.
pub open spec fn catalog_region_error_message(c: Catalog) -> Seq<char> {
    if c.properties@.contains_key(endpoint_prop_key()) {
        region_error_message(c.properties@[endpoint_prop_key()])
    } else {
        "Cant not retrieve region in the Catalog "@ + c.name@
    }
}

/// The message parameter resolution fails with: bucket extraction's
/// error where the location is rejected, else region resolution's.
pub open spec fn resolution_error_message(c: Catalog, f: Fileset) -> Seq<char> {
    if !host_present(f.storage_location@) {
        bucket_error_message(f.storage_location@)
    } else {
        catalog_region_error_message(c)
    }
}

/// The parameter map extracted from an entry list: entries whose key
/// starts with the S3 prefix survive, with the prefix stripped.
pub open spec fn extracted(s: Seq<(Seq<char>, Seq<char>)>) -> Map<Seq<char>, Seq<char>>
    decreases s.len(),
{
    if s.len() == 0 {
        Map::empty()
    } else {
        let m = extracted(s.drop_last());
        if spec_has_prefix(s.last().0, s3_prefix()) {
            m.insert(s.last().0.skip(3), s.last().1)
        } else {
            m
        }
    }
}

/// Appending to a prefix yields a sequence with that prefix, and
/// stripping it gives the appended part back.
proof fn lemma_prefix_parts(p: Seq<char>, k: Seq<char>)
    ensures
        spec_has_prefix(p + k, p),
        (p + k).skip(p.len() as int) == k,
{
    assert((p + k).subrange(0, p.len() as int) =~= p);
    assert((p + k).skip(p.len() as int) =~= k);
}

/// A sequence with a prefix is the prefix followed by the rest.
proof fn lemma_prefix_decompose(x: Seq<char>, p: Seq<char>)
    requires
        spec_has_prefix(x, p),
    ensures
        x == p + x.skip(p.len() as int),
{
    assert(x =~= p + x.skip(p.len() as int));
}

/// The extracted parameter map holds exactly the prefix-stripped entries
/// of the source mapping.
pub proof fn lemma_extracted_characterizes(s: Seq<(Seq<char>, Seq<char>)>)
    ensures
        forall|k: Seq<char>| #[trigger]
            extracted(s).contains_key(k) <==> map_of(s).contains_key(s3_prefix() + k),
        forall|k: Seq<char>| #[trigger]
            extracted(s).contains_key(k) ==> extracted(s)[k] == map_of(s)[s3_prefix() + k],
    decreases s.len(),
{
    let p = s3_prefix();
    if s.len() > 0 {
        lemma_extracted_characterizes(s.drop_last());
        let s2 = s.drop_last();
        let x = s.last().0;
        let v = s.last().1;
        assert(map_of(s) == map_of(s2).insert(x, v));
        if spec_has_prefix(x, p) {
            let k0 = x.skip(3);
            lemma_prefix_decompose(x, p);
            assert(x == p + k0);
            assert(extracted(s) == extracted(s2).insert(k0, v));
            assert forall|k: Seq<char>| #[trigger]
                extracted(s).contains_key(k) <==> map_of(s).contains_key(p + k) by {
                lemma_prefix_parts(p, k);
                assert(extracted(s2).contains_key(k) <==> map_of(s2).contains_key(p + k));
                if k != k0 {
                    assert(p + k != x);
                }
            }
            assert forall|k: Seq<char>| #[trigger]
                extracted(s).contains_key(k) implies extracted(s)[k] == map_of(s)[p + k] by {
                lemma_prefix_parts(p, k);
                assert(extracted(s2).contains_key(k) ==> extracted(s2)[k] == map_of(s2)[p + k]);
                assert(extracted(s2).contains_key(k) <==> map_of(s2).contains_key(p + k));
                if k != k0 {
                    assert(p + k != x);
                }
            }
        } else {
            assert(extracted(s) == extracted(s2));
            assert forall|k: Seq<char>| #[trigger]
                extracted(s).contains_key(k) <==> map_of(s).contains_key(p + k) by {
                lemma_prefix_parts(p, k);
                assert(extracted(s2).contains_key(k) <==> map_of(s2).contains_key(p + k));
                assert(p + k != x);
            }
            assert forall|k: Seq<char>| #[trigger]
                extracted(s).contains_key(k) implies extracted(s)[k] == map_of(s)[p + k] by {
                lemma_prefix_parts(p, k);
                assert(extracted(s2).contains_key(k) ==> extracted(s2)[k] == map_of(s2)[p + k]);
                assert(p + k != x);
            }
        }
    }
}

/// Extract the S3 backend parameters from the application configuration:
/// exactly the entries whose key starts with the S3 prefix survive, with
/// the prefix stripped; an empty result is valid.
pub fn extract_s3_config(config: &AppConfig) -> (r: ConfigMap)
    ensures
        r.wf(),
        forall|k: Seq<char>| #[trigger]
            r@.contains_key(k) <==> config.extend_config@.contains_key(s3_prefix() + k),
        forall|k: Seq<char>| #[trigger]
            r@.contains_key(k) ==> r@[k] == config.extend_config@[s3_prefix() + k],
{
    let src = &config.extend_config;
    let n = src.n_entries();
    let mut r = ConfigMap::new();
    proof {
        assert(src.kvs().take(0) =~= Seq::<(Seq<char>, Seq<char>)>::empty());
    }
    let mut i: usize = 0;
    while i < n
        invariant
            n == src.kvs().len(),
            i <= n,
            r.wf(),
            r@ == extracted(src.kvs().take(i as int)),
        decreases n - i,
    {
        let key = src.key_at(i);
        let has = str_has_prefix(key.as_str(), "s3-");
        proof {
            reveal_strlit("s3-");
            assert("s3-"@ =~= s3_prefix());
            assert(src.kvs().take(i as int + 1).drop_last() =~= src.kvs().take(i as int));
            assert(src.kvs().take(i as int + 1).last() == src.kvs()[i as int]);
        }
        if has {
            let stripped = str_suffix_from(key.as_str(), 3);
            let value = src.val_at(i).clone();
            r.insert(stripped, value);
        }
        i += 1;
    }
    proof {
        assert(src.kvs().take(n as int) =~= src.kvs());
        lemma_extracted_characterizes(src.kvs());
    }
    r
}

/// Extract the bucket from a storage location: the location's host,
/// taken verbatim.  Fails with `InvalidConfig` when the location does not
/// parse or has no host.
pub fn extract_bucket(location: &str) -> (r: GvfsResult<String>)
    ensures
        r is Ok <==> host_present(location@),
        r is Ok ==> r->Ok_0@ == spec_host(location@),
        r is Err ==> r->Err_0.code == ErrorCode::InvalidConfig && r->Err_0.message@
            == bucket_error_message(location@),
{
    let url = parse_location(location)?;
    match url.host {
        Some(host) => Ok(host),
        None => Err(
            ErrorCode::InvalidConfig.to_error(
                String::from_str("Invalid fileset location without bucket: ").concat(location),
            ),
        ),
    }
}

/// Extract the region from a location: the second dot-separated segment
/// of its host.  Fails with `InvalidConfig` when the location does not
/// parse, has no host, or the host has fewer than two segments.
pub fn extract_region(location: &str) -> (r: GvfsResult<String>)
    ensures
        r is Ok <==> host_present(location@) && has_region(spec_host(location@)),
        r is Ok ==> r->Ok_0@ == region_of(spec_host(location@)),
        r is Err ==> r->Err_0.code == ErrorCode::InvalidConfig && r->Err_0.message@
            == region_error_message(location@),
{
    let url = parse_location(location)?;
    match url.host {
        Some(host) => {
            let h = host.as_str();
            let hn = h.unicode_len();
            let d1 = find_char_from(h, '.', 0);
            if d1 < hn {
                let d2 = find_char_from(h, '.', d1 + 1);
                let seg = h.substring_char(d1 + 1, d2);
                assert(seg@ =~= region_of(spec_host(location@)));
                Ok(seg.to_owned())
            } else {
                Err(
                    ErrorCode::InvalidConfig.to_error(
                        String::from_str("Invalid location: expected region in host, got ").concat(
                            location,
                        ),
                    ),
                )
            }
        },
        None => Err(
            ErrorCode::InvalidConfig.to_error(
                String::from_str("Invalid fileset location without bucket: ").concat(location),
            ),
        ),
    }
}

/// The catalog carries enough information to resolve a region: an
/// explicit region property, or an endpoint whose host has one.
pub open spec fn region_resolvable(c: Catalog) -> bool {
    ||| c.properties@.contains_key(region_prop_key())
    ||| (c.properties@.contains_key(endpoint_prop_key()) && host_present(
        c.properties@[endpoint_prop_key()],
    ) && has_region(spec_host(c.properties@[endpoint_prop_key()])))
}

/// The region a catalog resolves to: the explicit property wins over the
/// endpoint-derived one.
pub open spec fn catalog_region(c: Catalog) -> Seq<char> {
    if c.properties@.contains_key(region_prop_key()) {
        c.properties@[region_prop_key()]
    } else {
        region_of(spec_host(c.properties@[endpoint_prop_key()]))
    }
}

/// Bucket and region resolution both succeed for these inputs.
pub open spec fn resolvable(c: Catalog, f: Fileset) -> bool {
    host_present(f.storage_location@) && region_resolvable(c)
}

/// The storage-operator handle of opendal, opaque to this library.
#[verifier::external_type_specification]
#[verifier::external_body]
pub struct ExOperator(opendal::Operator);

/// The error type of opendal, opaque to this library.
#[verifier::external_type_specification]
#[verifier::external_body]
pub struct ExOpendalError(opendal::Error);

/// Relies on opendal's `Operator::from_iter::<S3>`: builds an S3 storage
/// operator from the resolved parameter pairs, wraps it with the logging
/// layer and finishes it.  Whether the builder accepts the parameters is
/// opendal's decision, so nothing is promised of the outcome.
#[verifier::external_body]
fn build_s3_operator(pairs: &Vec<(String, String)>) -> Result<opendal::Operator, opendal::Error> {
    match opendal::Operator::from_iter::<opendal::services::S3>(pairs.clone()) {
        Ok(b) => Ok(b.layer(opendal::layers::LoggingLayer::default()).finish()),
        Err(e) => Err(e),
    }
}

/// Relies on the `Debug` rendering of opendal's error type to carry the
/// underlying cause in the returned message.
#[verifier::external_body]
fn opendal_error_message(e: &opendal::Error) -> String {
    format!("{:?}", e)
}

/// The generic filesystem delegate: owns the storage-operator handle for
/// the lifetime of the mount.  Remote operations through the handle are
/// asynchronous I/O and live outside this library.
pub struct OpenDalFileSystem {
    op: opendal::Operator,
}

impl OpenDalFileSystem {
    /// The operator handle this delegate owns.
    pub closed spec fn spec_operator(self) -> opendal::Operator {
        self.op
    }

    /// Wrap a finished storage-operator handle: the delegate holds
    /// exactly the operator it was given, for the mount's duration.
    pub fn new(
        op: opendal::Operator,
        _config: &AppConfig,
        _fs_context: &FileSystemContext,
    ) -> (r: OpenDalFileSystem)
        ensures
            r.spec_operator() == op,
    {
        OpenDalFileSystem { op }
    }

    /// The operator handle, for the layer that performs remote calls.
    pub fn operator(&self) -> (r: &opendal::Operator)
        ensures
            *r == self.spec_operator(),
    {
        &self.op
    }
}

/// Resolve the full S3 parameter map: the prefix-extracted configuration,
/// augmented with the bucket derived from the fileset's location and the
/// region resolved from the catalog.
pub fn resolve_s3_params(catalog: &Catalog, fileset: &Fileset, config: &AppConfig) -> (r:
    GvfsResult<ConfigMap>)
    ensures
        r is Ok <==> resolvable(*catalog, *fileset),
        r is Err ==> r->Err_0.code == ErrorCode::InvalidConfig && r->Err_0.message@
            == resolution_error_message(*catalog, *fileset),
        r is Ok ==> {
            let m = r->Ok_0@;
            &&& r->Ok_0.wf()
            &&& m.contains_key(bucket_key())
            &&& m[bucket_key()] == spec_host(fileset.storage_location@)
            &&& m.contains_key(region_key())
            &&& m[region_key()] == catalog_region(*catalog)
            &&& forall|k: Seq<char>|
                k != bucket_key() && k != region_key() ==> (#[trigger] m.contains_key(k)
                    <==> config.extend_config@.contains_key(s3_prefix() + k))
            &&& forall|k: Seq<char>|
                k != bucket_key() && k != region_key() && #[trigger] m.contains_key(k)
                    ==> m[k] == config.extend_config@[s3_prefix() + k]
        },
{
    let mut opendal_config = extract_s3_config(config);
    let bucket = extract_bucket(fileset.storage_location.as_str())?;
    proof {
        reveal_strlit("bucket");
        assert("bucket"@ =~= bucket_key());
    }
    opendal_config.insert(String::from_str("bucket"), bucket);
    let region = S3FileSystem::get_s3_region(catalog)?;
    proof {
        reveal_strlit("region");
        assert("region"@ =~= region_key());
    }
    opendal_config.insert(String::from_str("region"), region);
    Ok(opendal_config)
}

/// The S3 backend adapter: owns the generic filesystem delegate and
/// forwards every filesystem operation to it.
pub struct S3FileSystem {
    open_dal_fs: OpenDalFileSystem,
}

impl S3FileSystem {
    /// Construct the adapter: resolve the parameter map, build the
    /// storage operator from it, and wrap it into the delegate.
    ///
    /// Resolution failures surface as `InvalidConfig`; a rejection by the
    /// operator builder surfaces as `OpenDalError`.  No partial adapter
    /// is ever returned.
    pub fn new(
        catalog: &Catalog,
        fileset: &Fileset,
        config: &AppConfig,
        _fs_context: &FileSystemContext,
    ) -> (r: GvfsResult<Self>)
        ensures
            !resolvable(*catalog, *fileset) ==> r is Err && r->Err_0.code
                == ErrorCode::InvalidConfig && r->Err_0.message@ == resolution_error_message(
                *catalog,
                *fileset,
            ),
            resolvable(*catalog, *fileset) ==> (r is Ok || (r->Err_0.code
                == ErrorCode::OpenDalError && spec_has_prefix(
                r->Err_0.message@,
                "opendal create failed: "@,
            ))),
    {
        let opendal_config = resolve_s3_params(catalog, fileset, config)?;
        match build_s3_operator(opendal_config.raw_pairs()) {
            Ok(op) => {
                let open_dal_fs = OpenDalFileSystem::new(op, config, _fs_context);
                Ok(S3FileSystem { open_dal_fs })
            },
            Err(e) => {
                let msg = opendal_error_message(&e);
                proof {
                    lemma_prefix_parts("opendal create failed: "@, msg@);
                }
                Err(
                    ErrorCode::OpenDalError.to_error(
                        String::from_str("opendal create failed: ").concat(msg.as_str()),
                    ),
                )
            },
        }
    }

    /// Resolve the region from a catalog: an explicit region property is
    /// authoritative; otherwise it is derived from the endpoint property;
    /// with neither, resolution fails with `InvalidConfig`.
    pub fn get_s3_region(catalog: &Catalog) -> (r: GvfsResult<String>)
        ensures
            catalog.properties@.contains_key(region_prop_key()) ==> r is Ok && r->Ok_0@
                == catalog.properties@[region_prop_key()],
            !catalog.properties@.contains_key(region_prop_key())
                && catalog.properties@.contains_key(endpoint_prop_key()) ==> {
                let e = catalog.properties@[endpoint_prop_key()];
                &&& (r is Ok <==> host_present(e) && has_region(spec_host(e)))
                &&& (r is Ok ==> r->Ok_0@ == region_of(spec_host(e)))
            },
            !catalog.properties@.contains_key(region_prop_key())
                && !catalog.properties@.contains_key(endpoint_prop_key()) ==> r is Err,
            r is Err ==> r->Err_0.code == ErrorCode::InvalidConfig && r->Err_0.message@
                == catalog_region_error_message(*catalog),
    {
        proof {
            reveal_strlit("s3-region");
            reveal_strlit("s3-endpoint");
            assert("s3-region"@ =~= region_prop_key());
            assert("s3-endpoint"@ =~= endpoint_prop_key());
        }
        if let Some(region) = catalog.properties.get("s3-region") {
            Ok(region.clone())
        } else if let Some(endpoint) = catalog.properties.get("s3-endpoint") {
            extract_region(endpoint.as_str())
        } else {
            Err(
                ErrorCode::InvalidConfig.to_error(
                    String::from_str("Cant not retrieve region in the Catalog ").concat(
                        catalog.name.as_str(),
                    ),
                ),
            )
        }
    }

    /// Prepare the adapter for use: a no-op success at this level; the
    /// delegate's own initialization is its own concern.
    pub fn init(&self) -> (r: GvfsResult<()>)
        ensures
            r is Ok,
    {
        Ok(())
    }

    /// The delegate this adapter owns.
    pub closed spec fn spec_delegate(self) -> OpenDalFileSystem {
        self.open_dal_fs
    }

    /// The delegate every filesystem operation is forwarded to.
    pub fn delegate(&self) -> (r: &OpenDalFileSystem)
        ensures
            *r == self.spec_delegate(),
    {
        &self.open_dal_fs
    }
}

} // verus!
