//! The Datadog archives path: schema normalization of log events into the
//! reserved-attribute layout, time-partitioned object keys, and the
//! configuration gate for the S3-compatible store.

use vstd::prelude::*;

use crate::batch::{archives_default_batch, BatchSettings};
use crate::datetime::{partition_key_for_millis, rfc3339_millis, spec_partition_key, spec_rfc3339_millis};
use crate::event::{
    event_size, map_of, spec_event_size, wf_entries, EventFinalizer, LogEvent, Value,
};
use crate::host::{b64_of, is_hyphenated_uuid, uuid_v4_string};
use crate::ids::{spec_id_bytes, IdGenerator};
use crate::json::{json_of_event, spec_json_obj};
use crate::retry::{archives_default_request, opt_or, Concurrency, RequestConfig, RequestSettings};
use crate::schema::LogSchema;
use crate::strutil::{
    clone_string, collapse_double_slash, lemma_collapse_slash_free_suffix,
    spec_collapse_double_slash, str_eq,
};

verus! {

/// The attribute keys the archive layout keeps at the top level.
pub open spec fn spec_reserved(k: Seq<char>) -> bool {
    ||| k == "_id"@
    ||| k == "date"@
    ||| k == "message"@
    ||| k == "host"@
    ||| k == "source"@
    ||| k == "service"@
    ||| k == "status"@
    ||| k == "tags"@
    ||| k == "trace_id"@
    ||| k == "span_id"@
}

pub fn is_reserved(k: &str) -> (r: bool)
    ensures
        r == spec_reserved(k@),
{
    str_eq(k, "_id") || str_eq(k, "date") || str_eq(k, "message") || str_eq(k, "host") || str_eq(
        k,
        "source",
    ) || str_eq(k, "service") || str_eq(k, "status") || str_eq(k, "tags") || str_eq(k, "trace_id")
        || str_eq(k, "span_id")
}

/// Renaming a key at the map level: absent keys leave the map unchanged.
pub open spec fn spec_rename_step(
    m: Map<Seq<char>, Value>,
    from: Seq<char>,
    to: Seq<char>,
) -> Map<Seq<char>, Value> {
    if m.contains_key(from) {
        m.remove(from).insert(to, m[from])
    } else {
        m
    }
}

/// The event map after the per-event rewrite that precedes the
/// reserved/attributes split: `_id` inserted, the timestamp field replaced
/// by `date`, and the schema's message and host fields renamed.
pub open spec fn spec_prenorm(
    m: Map<Seq<char>, Value>,
    ts: Seq<char>,
    msg: Seq<char>,
    host: Seq<char>,
    id: String,
    date: String,
) -> Map<Seq<char>, Value> {
    let m1 = m.insert("_id"@, Value::Str(id));
    let m2 = m1.remove(ts).insert("date"@, Value::Str(date));
    let m3 = spec_rename_step(m2, msg, "message"@);
    spec_rename_step(m3, host, "host"@)
}

/// What the archive layout promises of a normalized event `r` built from
/// the rewritten map `m4`: reserved keys stay at the top level with their
/// values, everything else sits in the single `attributes` object.
pub open spec fn spec_split_ok(m4: Map<Seq<char>, Value>, r: Map<Seq<char>, Value>) -> bool {
    &&& forall|k: Seq<char>|
        r.contains_key(k) <==> ((m4.contains_key(k) && spec_reserved(k)) || k == "attributes"@)
    &&& forall|k: Seq<char>| r.contains_key(k) && k != "attributes"@ ==> r[k] == m4[k]
    &&& (r["attributes"@] matches Value::Obj(es) && wf_entries(es@) && map_of(es@)
        == m4.filter_keys(|k: Seq<char>| !spec_reserved(k)))
}

/// Normalizes one event into the archive layout, with the generated
/// identifier and the rendered `date` value passed in.
pub fn normalize_event(e: LogEvent, schema: &LogSchema, id: String, date: String) -> (r: LogEvent)
    requires
        e.wf(),
    ensures
        r.wf(),
        spec_split_ok(
            spec_prenorm(
                e.view(),
                schema.timestamp_key@,
                schema.message_key@,
                schema.host_key@,
                id,
                date,
            ),
            r.view(),
        ),
{
    let ghost m0 = e.view();
    let mut e = e;
    e.insert(String::from_str("_id"), Value::Str(id));
    let _ = e.remove(schema.timestamp_key.as_str());
    e.insert(String::from_str("date"), Value::Str(date));
    e.rename(schema.message_key.as_str(), String::from_str("message"));
    e.rename(schema.host_key.as_str(), String::from_str("host"));
    let ghost m4 = spec_prenorm(
        m0,
        schema.timestamp_key@,
        schema.message_key@,
        schema.host_key@,
        id,
        date,
    );
    proof {
        assert(e.view() == m4);
    }

    let ghost es_all = e.fields@;
    let mut top = LogEvent::new();
    let mut attrs = LogEvent::new();
    let ghost mut j: int = 0;
    proof {
        assert(es_all.take(0) =~= Seq::<(String, Value)>::empty());
        assert(top.view() =~= map_of(es_all.take(0)).filter_keys(|k: Seq<char>| spec_reserved(k)));
        assert(attrs.view() =~= map_of(es_all.take(0)).filter_keys(
            |k: Seq<char>| !spec_reserved(k),
        ));
        assert(e.fields@ =~= es_all.skip(0));
    }
    while e.fields.len() > 0
        invariant
            0 <= j <= es_all.len(),
            wf_entries(es_all),
            e.fields@ =~= es_all.skip(j),
            top.wf(),
            attrs.wf(),
            top.view() == map_of(es_all.take(j)).filter_keys(|k: Seq<char>| spec_reserved(k)),
            attrs.view() == map_of(es_all.take(j)).filter_keys(|k: Seq<char>| !spec_reserved(k)),
        decreases e.fields@.len(),
    {
        proof {
            assert(es_all.skip(j).len() > 0);
            assert(es_all.skip(j)[0] == es_all[j]);
        }
        let (k, v) = e.fields.remove(0);
        proof {
            assert(e.fields@ =~= es_all.skip(j + 1));
            assert(es_all.take(j + 1).drop_last() =~= es_all.take(j));
            assert(es_all.take(j + 1).last() == es_all[j]);
            assert(map_of(es_all.take(j + 1)) == map_of(es_all.take(j)).insert(k@, v));
        }
        let reserved_here = is_reserved(k.as_str());
        if reserved_here {
            top.insert(k, v);
        } else {
            attrs.insert(k, v);
        }
        proof {
            j = j + 1;
            assert(top.view() =~= map_of(es_all.take(j)).filter_keys(
                |k: Seq<char>| spec_reserved(k),
            ));
            assert(attrs.view() =~= map_of(es_all.take(j)).filter_keys(
                |k: Seq<char>| !spec_reserved(k),
            ));
        }
    }
    proof {
        assert(es_all.take(j) =~= es_all);
        assert(map_of(es_all) == m4);
    }
    let attrs_fields = attrs.fields;
    top.insert(String::from_str("attributes"), Value::Obj(attrs_fields));
    proof {
        reveal_strlit("attributes");
        reveal_strlit("_id");
        reveal_strlit("date");
        reveal_strlit("message");
        reveal_strlit("host");
        reveal_strlit("source");
        reveal_strlit("service");
        reveal_strlit("status");
        reveal_strlit("tags");
        reveal_strlit("trace_id");
        reveal_strlit("span_id");
        assert("attributes"@.len() == 10);
        assert("_id"@.len() == 3);
        assert(!spec_reserved("attributes"@));
        assert forall|k: Seq<char>|
            top.view().contains_key(k) <==> ((m4.contains_key(k) && spec_reserved(k)) || k
                == "attributes"@) by {}
    }
    top
}

/// Every top-level key of a normalized event is reserved or the single
/// `attributes` object; the object holds exactly the non-reserved keys of
/// the rewritten event; and no key appears at both levels.
pub proof fn lemma_reserved_split(m4: Map<Seq<char>, Value>, r: Map<Seq<char>, Value>)
    requires
        spec_split_ok(m4, r),
    ensures
        forall|k: Seq<char>| r.contains_key(k) ==> spec_reserved(k) || k == "attributes"@,
        r["attributes"@] matches Value::Obj(es) ==> forall|k: Seq<char>|
            #![auto]
            map_of(es@).contains_key(k) <==> (m4.contains_key(k) && !spec_reserved(k)),
        r["attributes"@] matches Value::Obj(es) ==> forall|k: Seq<char>|
            #![auto]
            !(map_of(es@).contains_key(k) && r.contains_key(k) && k != "attributes"@),
{
    match r["attributes"@] {
        Value::Obj(es) => {
            assert(map_of(es@) == m4.filter_keys(|k: Seq<char>| !spec_reserved(k)));
            assert forall|k: Seq<char>| #![auto]
                map_of(es@).contains_key(k) <==> (m4.contains_key(k) && !spec_reserved(k)) by {
                assert(m4.filter_keys(|k: Seq<char>| !spec_reserved(k)).contains_key(k) == (
                m4.contains_key(k) && !spec_reserved(k)));
            }
        },
        _ => {},
    }
}

/// The time partitioner for archive objects: the key template
/// `/dt=%Y%m%d/hour=%H/` evaluated on the event's timestamp field.
pub struct KeyPartitioner {
    pub timestamp_key: String,
}

impl KeyPartitioner {
    /// The partition key for an event, or nothing when the event has no
    /// timestamp value under the schema's timestamp field.
    pub fn partition(&self, e: &LogEvent) -> (r: Option<String>)
        requires
            e.wf(),
        ensures
            match r {
                Some(key) => e.view().contains_key(self.timestamp_key@) && (e.view().index(
                    self.timestamp_key@,
                ) matches Value::Ts(ms) && key@ == spec_partition_key(ms as int)),
                None => !(e.view().contains_key(self.timestamp_key@)
                    && e.view()[self.timestamp_key@] matches Value::Ts(_)),
            },
    {
        match e.get(self.timestamp_key.as_str()) {
            Some(Value::Ts(ms)) => Some(partition_key_for_millis(*ms)),
            _ => None,
        }
    }
}

/// The storage classes an S3-compatible store offers.
#[derive(PartialEq, Eq, Structural, Clone, Copy, Debug)]
pub enum S3StorageClass {
    Standard,
    ReducedRedundancy,
    IntelligentTiering,
    StandardIa,
    OnezoneIa,
    Glacier,
    DeepArchive,
}

impl S3StorageClass {
    /// The class name as configuration and diagnostics spell it.
    pub fn name(&self) -> (r: &'static str)
        ensures
            r@ == match *self {
                S3StorageClass::Standard => "Standard"@,
                S3StorageClass::ReducedRedundancy => "ReducedRedundancy"@,
                S3StorageClass::IntelligentTiering => "IntelligentTiering"@,
                S3StorageClass::StandardIa => "StandardIa"@,
                S3StorageClass::OnezoneIa => "OnezoneIa"@,
                S3StorageClass::Glacier => "Glacier"@,
                S3StorageClass::DeepArchive => "DeepArchive"@,
            },
    {
        match self {
            S3StorageClass::Standard => "Standard",
            S3StorageClass::ReducedRedundancy => "ReducedRedundancy",
            S3StorageClass::IntelligentTiering => "IntelligentTiering",
            S3StorageClass::StandardIa => "StandardIa",
            S3StorageClass::OnezoneIa => "OnezoneIa",
            S3StorageClass::Glacier => "Glacier",
            S3StorageClass::DeepArchive => "DeepArchive",
        }
    }
}

#[derive(PartialEq, Eq, Structural, Clone, Copy, Debug)]
pub enum S3CannedAcl {
    Private,
    PublicRead,
    PublicReadWrite,
    AwsExecRead,
    AuthenticatedRead,
    BucketOwnerRead,
    BucketOwnerFullControl,
    LogDeliveryWrite,
}

#[derive(PartialEq, Eq, Structural, Clone, Copy, Debug)]
pub enum S3ServerSideEncryption {
    Aes256,
    AwsKms,
}

/// Per-object options forwarded to the store.
pub struct S3Options {
    pub acl: Option<S3CannedAcl>,
    pub grant_full_control: Option<String>,
    pub grant_read: Option<String>,
    pub grant_read_acp: Option<String>,
    pub grant_write_acp: Option<String>,
    pub server_side_encryption: Option<S3ServerSideEncryption>,
    pub ssekms_key_id: Option<String>,
    pub storage_class: Option<S3StorageClass>,
    pub tags: Option<Vec<(String, String)>>,
}

pub open spec fn opt_str_view(o: Option<String>) -> Option<Seq<char>> {
    match o {
        Some(s) => Some(s@),
        None => None,
    }
}

pub open spec fn tags_view(o: Option<Vec<(String, String)>>) -> Option<
    Seq<(Seq<char>, Seq<char>)>,
> {
    match o {
        Some(ts) => Some(ts@.map_values(|t: (String, String)| (t.0@, t.1@))),
        None => None,
    }
}

/// Option views compared field by field; string contents count, not
/// allocation identity.
pub open spec fn s3_options_eq(a: S3Options, b: S3Options) -> bool {
    &&& a.acl == b.acl
    &&& opt_str_view(a.grant_full_control) == opt_str_view(b.grant_full_control)
    &&& opt_str_view(a.grant_read) == opt_str_view(b.grant_read)
    &&& opt_str_view(a.grant_read_acp) == opt_str_view(b.grant_read_acp)
    &&& opt_str_view(a.grant_write_acp) == opt_str_view(b.grant_write_acp)
    &&& a.server_side_encryption == b.server_side_encryption
    &&& opt_str_view(a.ssekms_key_id) == opt_str_view(b.ssekms_key_id)
    &&& a.storage_class == b.storage_class
    &&& tags_view(a.tags) == tags_view(b.tags)
}

fn clone_opt_string(o: &Option<String>) -> (r: Option<String>)
    ensures
        opt_str_view(r) == opt_str_view(*o),
{
    match o {
        Some(s) => Some(crate::strutil::clone_string(s)),
        None => None,
    }
}

impl S3Options {
    pub fn unspecified() -> (r: S3Options)
        ensures
            r.acl is None,
            r.grant_full_control is None,
            r.grant_read is None,
            r.grant_read_acp is None,
            r.grant_write_acp is None,
            r.server_side_encryption is None,
            r.ssekms_key_id is None,
            r.storage_class is None,
            r.tags is None,
    {
        S3Options {
            acl: None,
            grant_full_control: None,
            grant_read: None,
            grant_read_acp: None,
            grant_write_acp: None,
            server_side_encryption: None,
            ssekms_key_id: None,
            storage_class: None,
            tags: None,
        }
    }

    /// A field-by-field copy.
    pub fn duplicate(&self) -> (r: S3Options)
        ensures
            s3_options_eq(r, *self),
    {
        let tags: Option<Vec<(String, String)>> = match &self.tags {
            Some(ts) => {
                let mut out: Vec<(String, String)> = Vec::new();
                let mut i: usize = 0;
                let n = ts.len();
                while i < n
                    invariant
                        i <= n,
                        n == ts@.len(),
                        out@.len() == i,
                        forall|q: int|
                            0 <= q < i ==> out@[q].0@ == ts@[q].0@ && out@[q].1@ == ts@[q].1@,
                    decreases n - i,
                {
                    let k = crate::strutil::clone_string(&ts[i].0);
                    let v = crate::strutil::clone_string(&ts[i].1);
                    out.push((k, v));
                    i += 1;
                }
                Some(out)
            },
            None => None,
        };
        proof {
            match (&tags, &self.tags) {
                (Some(a), Some(b)) => {
                    assert(a@.map_values(|t: (String, String)| (t.0@, t.1@)) =~= b@.map_values(
                        |t: (String, String)| (t.0@, t.1@),
                    ));
                },
                _ => {},
            }
            assert(tags_view(tags) == tags_view(self.tags));
        }
        S3Options {
            acl: self.acl,
            grant_full_control: clone_opt_string(&self.grant_full_control),
            grant_read: clone_opt_string(&self.grant_read),
            grant_read_acp: clone_opt_string(&self.grant_read_acp),
            grant_write_acp: clone_opt_string(&self.grant_write_acp),
            server_side_encryption: self.server_side_encryption,
            ssekms_key_id: clone_opt_string(&self.ssekms_key_id),
            storage_class: self.storage_class,
            tags,
        }
    }
}

/// A region name or a custom endpoint for the object store.
pub struct RegionOrEndpoint {
    pub region: Option<String>,
    pub endpoint: Option<String>,
}

/// How requests to the store are signed.
pub enum AwsAuthentication {
    Automatic,
    Basic { access_key_id: String, secret_access_key: String },
}

/// The S3 service section of the archives configuration.
pub struct S3Config {
    pub options: S3Options,
    pub region: RegionOrEndpoint,
    pub auth: AwsAuthentication,
}

/// Why an archives configuration is rejected at build time.
pub enum ConfigError {
    UnsupportedService { service: String },
    UnsupportedStorageClass { storage_class: S3StorageClass },
}

impl ConfigError {
    /// The operator-visible description.
    pub fn message(&self) -> (r: String)
        ensures
            match self {
                ConfigError::UnsupportedService { service } => r@ == "Unsupported service: "@
                    + service@,
                ConfigError::UnsupportedStorageClass { storage_class } => r@
                    == "Unsupported storage class: "@ + match *storage_class {
                    S3StorageClass::Standard => "Standard"@,
                    S3StorageClass::ReducedRedundancy => "ReducedRedundancy"@,
                    S3StorageClass::IntelligentTiering => "IntelligentTiering"@,
                    S3StorageClass::StandardIa => "StandardIa"@,
                    S3StorageClass::OnezoneIa => "OnezoneIa"@,
                    S3StorageClass::Glacier => "Glacier"@,
                    S3StorageClass::DeepArchive => "DeepArchive"@,
                },
            },
    {
        match self {
            ConfigError::UnsupportedService { service } => {
                let mut s = String::from_str("Unsupported service: ");
                s.append(service.as_str());
                s
            },
            ConfigError::UnsupportedStorageClass { storage_class } => {
                let mut s = String::from_str("Unsupported storage class: ");
                s.append(storage_class.name());
                s
            },
        }
    }
}

/// The `date` value a normalized event gets: the event's own timestamp
/// when it carries one, else the clock reading handed in.
pub open spec fn spec_date_chars(m: Map<Seq<char>, Value>, ts: Seq<char>, now_ms: u64) -> Seq<
    char,
> {
    if m.contains_key(ts) && (m[ts] matches Value::Ts(_)) {
        spec_rfc3339_millis(m[ts]->Ts_0 as int)
    } else {
        spec_rfc3339_millis(now_ms as int)
    }
}

/// What holds of one encoded archive line: it is the JSON rendering of a
/// normalized event whose `_id` carries the given identifier characters
/// and whose `date` carries the given date characters.
pub open spec fn spec_encoded_line_ok(
    m0: Map<Seq<char>, Value>,
    schema: LogSchema,
    id: Seq<char>,
    date: Seq<char>,
    line: Seq<char>,
) -> bool {
    exists|ids: String, dates: String, ne: LogEvent|
        #![auto]
        {
            &&& ids@ == id
            &&& dates@ == date
            &&& ne.wf()
            &&& spec_split_ok(
                spec_prenorm(
                    m0,
                    schema.timestamp_key@,
                    schema.message_key@,
                    schema.host_key@,
                    ids,
                    dates,
                ),
                ne.view(),
            )
            &&& line == spec_json_obj(ne.fields@)
        }
}

/// Newline-delimited framing: every record is followed by one newline.
pub open spec fn spec_ndjson(lines: Seq<Seq<char>>) -> Seq<char>
    decreases lines.len(),
{
    if lines.len() == 0 {
        Seq::empty()
    } else {
        spec_ndjson(lines.drop_last()) + lines.last() + seq!['\n']
    }
}

/// The archives encoder: the schema consulted for the rewrite, and the
/// identifier generator whose counter advances once per event.
pub struct ArchivesEncoder {
    pub schema: LogSchema,
    pub ids: IdGenerator,
}

impl ArchivesEncoder {
    pub open spec fn wf(&self) -> bool {
        self.ids.wf()
    }

    pub fn new() -> (r: ArchivesEncoder)
        ensures
            r.wf(),
            r.ids.ctr == 0,
            r.schema.timestamp_key@ == "timestamp"@,
            r.schema.message_key@ == "message"@,
            r.schema.host_key@ == "host"@,
            r.schema.source_type_key@ == "source_type"@,
    {
        ArchivesEncoder { schema: LogSchema::default_schema(), ids: IdGenerator::new() }
    }

    /// Normalizes one event and renders it as one JSON record.
    pub fn encode_event(&mut self, e: LogEvent, now_ms: u64) -> (line: String)
        requires
            e.wf(),
            old(self).wf(),
        ensures
            final(self).wf(),
            final(self).schema == old(self).schema,
            final(self).ids.rnd == old(self).ids.rnd,
            final(self).ids.ctr as int == (old(self).ids.ctr as int + 1) % 0x1_0000_0000,
            spec_encoded_line_ok(
                e.view(),
                old(self).schema,
                b64_of(spec_id_bytes(now_ms, old(self).ids.rnd@, old(self).ids.ctr)),
                spec_date_chars(e.view(), old(self).schema.timestamp_key@, now_ms),
                line@,
            ),
    {
        let date = match e.get(self.schema.timestamp_key.as_str()) {
            Some(Value::Ts(ms)) => rfc3339_millis(*ms),
            _ => rfc3339_millis(now_ms),
        };
        let id = self.ids.next_id(now_ms);
        let ne = normalize_event(e, &self.schema, id, date);
        let line = json_of_event(&ne);
        proof {
            assert(spec_encoded_line_ok(
                e.view(),
                old(self).schema,
                b64_of(spec_id_bytes(now_ms, old(self).ids.rnd@, old(self).ids.ctr)),
                spec_date_chars(e.view(), old(self).schema.timestamp_key@, now_ms),
                line@,
            ));
        }
        line
    }

    /// Encodes a batch as newline-delimited JSON: one record per event,
    /// each followed by a newline, identifiers drawn in order.
    pub fn encode_batch(&mut self, events: Vec<LogEvent>, now_ms: u64) -> (payload: String)
        requires
            old(self).wf(),
            forall|i: int| 0 <= i < events@.len() ==> (#[trigger] events@[i]).wf(),
        ensures
            final(self).wf(),
            final(self).schema == old(self).schema,
            final(self).ids.rnd == old(self).ids.rnd,
            final(self).ids.ctr as int == (old(self).ids.ctr as int + events@.len())
                % 0x1_0000_0000,
            exists|lines: Seq<Seq<char>>|
                #![auto]
                {
                    &&& lines.len() == events@.len()
                    &&& payload@ == spec_ndjson(lines)
                    &&& forall|i: int|
                        0 <= i < lines.len() ==> spec_encoded_line_ok(
                            events@[i].view(),
                            old(self).schema,
                            b64_of(
                                spec_id_bytes(
                                    now_ms,
                                    old(self).ids.rnd@,
                                    ((old(self).ids.ctr as int + i) % 0x1_0000_0000) as u32,
                                ),
                            ),
                            spec_date_chars(
                                events@[i].view(),
                                old(self).schema.timestamp_key@,
                                now_ms,
                            ),
                            lines[i],
                        )
                },
    {
        let ghost es_all = events@;
        let mut evs = events;
        let mut payload = String::new();
        let ghost mut lines: Seq<Seq<char>> = Seq::empty();
        let ghost mut j: int = 0;
        proof {
            assert(payload@ =~= spec_ndjson(lines));
            assert(evs@ =~= es_all.skip(0));
        }
        while evs.len() > 0
            invariant
                0 <= j <= es_all.len(),
                j == lines.len(),
                evs@ =~= es_all.skip(j),
                self.wf(),
                self.schema == old(self).schema,
                self.ids.rnd == old(self).ids.rnd,
                self.ids.ctr as int == (old(self).ids.ctr as int + j) % 0x1_0000_0000,
                forall|q: int| 0 <= q < es_all.len() ==> (#[trigger] es_all[q]).wf(),
                payload@ == spec_ndjson(lines),
                forall|q: int|
                    0 <= q < j ==> spec_encoded_line_ok(
                        es_all[q].view(),
                        old(self).schema,
                        b64_of(
                            spec_id_bytes(
                                now_ms,
                                old(self).ids.rnd@,
                                ((old(self).ids.ctr as int + q) % 0x1_0000_0000) as u32,
                            ),
                        ),
                        spec_date_chars(es_all[q].view(), old(self).schema.timestamp_key@, now_ms),
                        lines[q],
                    ),
            decreases evs@.len(),
        {
            let ghost ctr_before = self.ids.ctr;
            proof {
                assert(es_all.skip(j).len() > 0);
                assert(es_all.skip(j)[0] == es_all[j]);
            }
            let e = evs.remove(0);
            proof {
                assert(evs@ =~= es_all.skip(j + 1));
                assert(e == es_all[j]);
            }
            let line = self.encode_event(e, now_ms);
            payload.append(line.as_str());
            proof {
                reveal_strlit("\n");
            }
            payload.append("\n");
            proof {
                let ghost lines0 = lines;
                lines = lines.push(line@);
                assert(lines.drop_last() =~= lines0);
                assert(lines.last() == line@);
                assert(payload@ =~= spec_ndjson(lines));
                assert(ctr_before as int == (old(self).ids.ctr as int + j) % 0x1_0000_0000);
                assert(self.ids.ctr as int == (old(self).ids.ctr as int + (j + 1))
                    % 0x1_0000_0000) by {
                    let m: int = 0x1_0000_0000;
                    let base: int = old(self).ids.ctr as int;
                    vstd::arithmetic::div_mod::lemma_mod_adds(base, j, m);
                    vstd::arithmetic::div_mod::lemma_mod_adds(base + j, 1, m);
                }
                j = j + 1;
            }
        }
        proof {
            assert(j == es_all.len()) by {
                assert(evs@ =~= es_all.skip(j));
                assert(evs@.len() == 0);
            }
        }
        payload
    }
}

/// The size estimate of a whole batch, saturating at the u64 ceiling.
pub open spec fn spec_events_size(es: Seq<LogEvent>) -> int
    decreases es.len(),
{
    if es.len() == 0 {
        0
    } else {
        crate::event::sat_add(spec_events_size(es.drop_last()), spec_event_size(es.last()))
    }
}

pub fn events_size(es: &Vec<LogEvent>) -> (r: u64)
    ensures
        r as int == spec_events_size(es@),
{
    let mut total: u64 = 0;
    let n = es.len();
    let mut i: usize = 0;
    proof {
        assert(es@.take(0) =~= Seq::<LogEvent>::empty());
    }
    while i < n
        invariant
            i <= n,
            n == es@.len(),
            total as int == spec_events_size(es@.take(i as int)),
        decreases n - i,
    {
        let s = event_size(&es[i]);
        proof {
            assert(es@.take(i + 1).drop_last() =~= es@.take(i as int));
            assert(es@.take(i + 1).last() == es@[i as int]);
        }
        total = total.saturating_add(s);
        i += 1;
    }
    proof {
        assert(es@.take(n as int) =~= es@);
    }
    total
}

/// The finalizer handles of a batch, aggregated in event order.
pub open spec fn spec_all_finalizers(es: Seq<LogEvent>) -> Seq<EventFinalizer>
    decreases es.len(),
{
    if es.len() == 0 {
        Seq::empty()
    } else {
        spec_all_finalizers(es.drop_last()) + es.last().finalizers@
    }
}

/// Request metadata carried from the batch into the store request,
/// including the finalizer handles moved off the batch's events.
pub struct S3Metadata {
    pub partition_key: String,
    pub count: usize,
    pub byte_size: u64,
    pub finalizers: Vec<EventFinalizer>,
}

/// A wire-ready object-store request.
pub struct S3Request {
    pub body: Vec<u8>,
    pub bucket: String,
    pub metadata: S3Metadata,
    pub content_encoding: Option<String>,
    pub options: S3Options,
}

/// Assembles the object key `{prefix}/{partition}{uuid}.json.gz` and
/// collapses any doubled slash.
pub fn object_key(prefix: &Option<String>, partition: &str, uuid: &str) -> (r: String)
    ensures
        r@ == spec_collapse_double_slash(
            (match prefix {
                Some(p) => p@,
                None => Seq::empty(),
            }) + "/"@ + partition@ + uuid@ + ".json.gz"@,
        ),
{
    let mut s = match prefix {
        Some(p) => clone_string(p),
        None => String::new(),
    };
    s.append("/");
    s.append(partition);
    s.append(uuid);
    s.append(".json.gz");
    collapse_double_slash(s.as_str())
}


/// The random object name and the `.json.gz` extension hold no slash, so
/// the collapse touches only the prefix and partition: every emitted
/// object key is the collapsed `{prefix}/{partition}` followed intact by
/// the hyphenated object name and the extension.
pub proof fn lemma_object_key_shape(prefix: Seq<char>, partition: Seq<char>, u: Seq<char>)
    requires
        is_hyphenated_uuid(u),
    ensures
        spec_collapse_double_slash(prefix + "/"@ + partition + u + ".json.gz"@)
            == spec_collapse_double_slash(prefix + "/"@ + partition) + u + ".json.gz"@,
{
    let ext = ".json.gz"@;
    let tail = u + ext;
    reveal_strlit(".json.gz");
    assert(ext.len() == 8);
    assert forall|i: int| 0 <= i < tail.len() implies tail[i] != '/' by {
        if i < u.len() {
            assert(tail[i] == u[i]);
            if i == 8 || i == 13 || i == 18 || i == 23 {
                assert(u[i] == '-');
            } else {
                assert(crate::host::is_lower_hex_digit(u[i]));
                assert(u[i] as int != 47) by {
                    assert((48 <= u[i] as int <= 57) || (97 <= u[i] as int <= 102));
                }
                assert(u[i] != '/');
            }
        } else {
            assert(tail[i] == ext[i - u.len()]);
        }
    }
    lemma_collapse_slash_free_suffix(prefix + "/"@ + partition, tail);
    assert(prefix + "/"@ + partition + u + ".json.gz"@ =~= (prefix + "/"@ + partition) + tail);
    assert(spec_collapse_double_slash(prefix + "/"@ + partition) + tail
        =~= spec_collapse_double_slash(prefix + "/"@ + partition) + u + ".json.gz"@);
}

/// Builds the store requests for the archives path.
pub struct DatadogS3RequestBuilder {
    pub bucket: String,
    pub key_prefix: Option<String>,
    pub config: S3Config,
    pub encoding: ArchivesEncoder,
}

impl DatadogS3RequestBuilder {
    pub fn new(bucket: String, key_prefix: Option<String>, config: S3Config) -> (r:
        DatadogS3RequestBuilder)
        ensures
            r.bucket == bucket,
            r.key_prefix == key_prefix,
            r.config == config,
            r.encoding.wf(),
            r.encoding.ids.ctr == 0,
            r.encoding.schema.timestamp_key@ == "timestamp"@,
    {
        DatadogS3RequestBuilder { bucket, key_prefix, config, encoding: ArchivesEncoder::new() }
    }

    /// Splits a keyed batch into its request metadata and its events: the
    /// finalizer handles are moved, not copied, off the events into the
    /// metadata, so that encoding works on plain fields and the service
    /// outcome can resolve the whole request at once.
    pub fn split_input(&self, input: (String, Vec<LogEvent>)) -> (r: (S3Metadata, Vec<LogEvent>))
        ensures
            r.0.partition_key == input.0,
            r.0.count == input.1@.len(),
            r.0.byte_size as int == spec_events_size(input.1@),
            r.0.finalizers@ == spec_all_finalizers(input.1@),
            r.1@.len() == input.1@.len(),
            forall|i: int|
                0 <= i < r.1@.len() ==> (#[trigger] r.1@[i]).fields == input.1@[i].fields
                    && r.1@[i].finalizers@.len() == 0,
    {
        let (partition_key, events) = input;
        let ghost es_all = events@;
        let byte_size = events_size(&events);
        let count = events.len();
        let mut events = events;
        let mut stripped: Vec<LogEvent> = Vec::new();
        let mut finalizers: Vec<EventFinalizer> = Vec::new();
        let ghost mut j: int = 0;
        proof {
            assert(es_all.take(0) =~= Seq::<LogEvent>::empty());
            assert(finalizers@ =~= spec_all_finalizers(es_all.take(0)));
            assert(events@ =~= es_all.skip(0));
        }
        while events.len() > 0
            invariant
                0 <= j <= es_all.len(),
                events@ =~= es_all.skip(j),
                stripped@.len() == j,
                finalizers@ == spec_all_finalizers(es_all.take(j)),
                forall|q: int|
                    0 <= q < j ==> (#[trigger] stripped@[q]).fields == es_all[q].fields
                        && stripped@[q].finalizers@.len() == 0,
            decreases events@.len(),
        {
            proof {
                assert(es_all.skip(j)[0] == es_all[j]);
            }
            let mut e = events.remove(0);
            let ghost fin_before = finalizers@;
            let mut taken = e.take_finalizers();
            finalizers.append(&mut taken);
            stripped.push(e);
            proof {
                assert(events@ =~= es_all.skip(j + 1));
                assert(es_all.take(j + 1).drop_last() =~= es_all.take(j));
                assert(es_all.take(j + 1).last() == es_all[j]);
                assert(finalizers@ =~= fin_before + es_all[j].finalizers@);
                j = j + 1;
            }
        }
        proof {
            assert(es_all.take(j) =~= es_all);
        }
        let metadata = S3Metadata { partition_key, count, byte_size, finalizers };
        (metadata, stripped)
    }

    /// Builds the store request: a fresh random object name under the
    /// partition's key, the configured options, gzip content encoding,
    /// and the metadata's finalizer handles moved through unchanged.
    pub fn build_request(&self, metadata: S3Metadata, payload: Vec<u8>) -> (r: S3Request)
        ensures
            r.bucket@ == self.bucket@,
            r.body == payload,
            r.metadata.count == metadata.count,
            r.metadata.byte_size == metadata.byte_size,
            r.metadata.finalizers == metadata.finalizers,
            r.content_encoding matches Some(ce) && ce@ == "gzip"@,
            s3_options_eq(r.options, self.config.options),
            exists|u: Seq<char>|
                #![auto]
                is_hyphenated_uuid(u) && r.metadata.partition_key@ == spec_collapse_double_slash(
                    (match self.key_prefix {
                        Some(p) => p@,
                        None => Seq::empty(),
                    }) + "/"@ + metadata.partition_key@ + u + ".json.gz"@,
                ),
    {
        let filename = uuid_v4_string();
        let key = object_key(&self.key_prefix, metadata.partition_key.as_str(), filename.as_str());
        let S3Metadata { partition_key: _, count, byte_size, finalizers } = metadata;
        proof {
            reveal_strlit("gzip");
        }
        S3Request {
            body: payload,
            bucket: clone_string(&self.bucket),
            metadata: S3Metadata { partition_key: key, count, byte_size, finalizers },
            content_encoding: Some(String::from_str("gzip")),
            options: self.config.options.duplicate(),
        }
    }
}

/// The archives sink configuration as the operator writes it.
pub struct DatadogArchivesSinkConfig {
    pub service: String,
    pub bucket: String,
    pub key_prefix: Option<String>,
    pub request: RequestConfig,
    pub aws_s3: Option<S3Config>,
}

/// Everything the archives delivery loop needs, resolved and validated.
pub struct ArchivesSinkPlan {
    pub request_limits: RequestSettings,
    pub batch: BatchSettings,
    pub partitioner: KeyPartitioner,
    pub builder: DatadogS3RequestBuilder,
}

impl DatadogArchivesSinkConfig {
    /// Validates the configuration and lays out the delivery plan: only
    /// the `aws_s3` service is supported, and the `DeepArchive` and
    /// `Glacier` storage classes are rejected at build time.
    pub fn new(&self) -> (r: Result<ArchivesSinkPlan, ConfigError>)
        requires
            self.service@ == "aws_s3"@ ==> self.aws_s3 is Some,
        ensures
            (r matches Err(ConfigError::UnsupportedService { service }) && service@
                == self.service@) <==> self.service@ != "aws_s3"@,
            (r matches Err(ConfigError::UnsupportedStorageClass { storage_class })) <==> (
            self.service@ == "aws_s3"@ && (self.aws_s3->0.options.storage_class == Some(
                S3StorageClass::Glacier,
            ) || self.aws_s3->0.options.storage_class == Some(S3StorageClass::DeepArchive))),
            r matches Err(ConfigError::UnsupportedStorageClass { storage_class }) ==> Some(
                storage_class,
            ) == self.aws_s3->0.options.storage_class,
            r is Ok <==> (self.service@ == "aws_s3"@ && !(self.aws_s3->0.options.storage_class
                == Some(S3StorageClass::Glacier) || self.aws_s3->0.options.storage_class == Some(
                S3StorageClass::DeepArchive,
            ))),
            r matches Ok(plan) ==> {
                &&& plan.builder.bucket@ == self.bucket@
                &&& opt_str_view(plan.builder.key_prefix) == opt_str_view(self.key_prefix)
                &&& plan.partitioner.timestamp_key@ == "timestamp"@
                &&& plan.batch.max_events == 25_000usize
                &&& plan.batch.max_bytes == 100_000_000u64
                &&& plan.batch.timeout_secs == 900u64
                &&& plan.builder.encoding.wf()
                &&& s3_options_eq(plan.builder.config.options, self.aws_s3->0.options)
                &&& plan.request_limits.concurrency == opt_or(
                    self.request.concurrency,
                    Concurrency::Fixed(50usize),
                )
                &&& plan.request_limits.rate_limit_num == opt_or(self.request.rate_limit_num, 250u64)
            },
    {
        if !str_eq(self.service.as_str(), "aws_s3") {
            return Err(ConfigError::UnsupportedService { service: clone_string(&self.service) });
        }
        let s3_config = match &self.aws_s3 {
            Some(c) => c,
            None => {
                proof {
                    assert(false);
                }
                return Err(ConfigError::UnsupportedService {
                    service: clone_string(&self.service),
                });
            },
        };
        match s3_config.options.storage_class {
            Some(S3StorageClass::DeepArchive) => {
                return Err(ConfigError::UnsupportedStorageClass {
                    storage_class: S3StorageClass::DeepArchive,
                });
            },
            Some(S3StorageClass::Glacier) => {
                return Err(ConfigError::UnsupportedStorageClass {
                    storage_class: S3StorageClass::Glacier,
                });
            },
            _ => {},
        }
        let request_limits = self.request.unwrap_with(&archives_default_request());
        let batch = archives_default_batch();
        let partitioner = DatadogArchivesSinkConfig::build_partitioner();
        let s3_copy = S3Config {
            options: s3_config.options.duplicate(),
            region: RegionOrEndpoint {
                region: match &s3_config.region.region {
                    Some(x) => Some(clone_string(x)),
                    None => None,
                },
                endpoint: match &s3_config.region.endpoint {
                    Some(x) => Some(clone_string(x)),
                    None => None,
                },
            },
            auth: match &s3_config.auth {
                AwsAuthentication::Automatic => AwsAuthentication::Automatic,
                AwsAuthentication::Basic { access_key_id, secret_access_key } =>
                    AwsAuthentication::Basic {
                    access_key_id: clone_string(access_key_id),
                    secret_access_key: clone_string(secret_access_key),
                },
            },
        };
        let builder = DatadogS3RequestBuilder::new(
            clone_string(&self.bucket),
            match &self.key_prefix {
                Some(x) => Some(clone_string(x)),
                None => None,
            },
            s3_copy,
        );
        Ok(ArchivesSinkPlan { request_limits, batch, partitioner, builder })
    }

    /// The time partitioner for the fixed key template.
    pub fn build_partitioner() -> (r: KeyPartitioner)
        ensures
            r.timestamp_key@ == "timestamp"@,
    {
        KeyPartitioner { timestamp_key: String::from_str("timestamp") }
    }
}


/// A non-empty framed batch ends in a newline, placed right after its
/// last record.
pub proof fn lemma_ndjson_shape(lines: Seq<Seq<char>>)
    requires
        lines.len() > 0,
    ensures
        spec_ndjson(lines).len() == spec_ndjson(lines.drop_last()).len() + lines.last().len() + 1,
        spec_ndjson(lines)[spec_ndjson(lines).len() - 1] == '\n',
        forall|i: int|
            0 <= i < spec_ndjson(lines.drop_last()).len() ==> spec_ndjson(lines)[i]
                == spec_ndjson(lines.drop_last())[i],
        forall|i: int|
            0 <= i < lines.last().len() ==> spec_ndjson(lines)[spec_ndjson(
                lines.drop_last(),
            ).len() + i] == lines.last()[i],
{
}

/// Newline framing is lossless: batches of newline-free records with the
/// same framed payload hold the same records. Decoding an archive batch
/// by splitting at newlines therefore recovers exactly the encoded
/// records.
pub proof fn lemma_ndjson_lossless(l1: Seq<Seq<char>>, l2: Seq<Seq<char>>)
    requires
        forall|q: int| 0 <= q < l1.len() ==> crate::json::newline_free(#[trigger] l1[q]),
        forall|q: int| 0 <= q < l2.len() ==> crate::json::newline_free(#[trigger] l2[q]),
        spec_ndjson(l1) == spec_ndjson(l2),
    ensures
        l1 == l2,
    decreases l1.len(),
{
    if l1.len() == 0 {
        if l2.len() > 0 {
            lemma_ndjson_shape(l2);
            assert(spec_ndjson(l2).len() > 0);
            assert(false);
        }
        assert(l1 =~= l2);
    } else {
        if l2.len() == 0 {
            lemma_ndjson_shape(l1);
            assert(false);
        }
        lemma_ndjson_shape(l1);
        lemma_ndjson_shape(l2);
        let full = spec_ndjson(l1);
        let p1 = spec_ndjson(l1.drop_last()).len() as int;
        let p2 = spec_ndjson(l2.drop_last()).len() as int;
        let lena = full.len() - 1;
        // no character of the trailing record region is a newline
        assert forall|i: int| p1 <= i < lena implies full[i] != '\n' by {
            assert(full[i] == l1.last()[i - p1]);
            assert(crate::json::newline_free(l1[l1.len() - 1]));
        }
        assert forall|i: int| p2 <= i < lena implies full[i] != '\n' by {
            assert(full[i] == l2.last()[i - p2]);
            assert(crate::json::newline_free(l2[l2.len() - 1]));
        }
        // the newline before each trailing record pins the split point
        if p1 < p2 {
            if l2.drop_last().len() > 0 {
                lemma_ndjson_shape(l2.drop_last());
                assert(full[p2 - 1] == '\n');
                assert(p1 <= p2 - 1 < lena);
                assert(false);
            } else {
                assert(p2 == 0);
                assert(false);
            }
        }
        if p2 < p1 {
            if l1.drop_last().len() > 0 {
                lemma_ndjson_shape(l1.drop_last());
                assert(full[p1 - 1] == '\n');
                assert(p2 <= p1 - 1 < lena);
                assert(false);
            } else {
                assert(p1 == 0);
                assert(false);
            }
        }
        assert(p1 == p2);
        assert(l1.last() =~= l2.last()) by {
            assert(l1.last().len() == lena - p1);
            assert(l2.last().len() == lena - p2);
            assert forall|i: int| 0 <= i < l1.last().len() implies l1.last()[i]
                == l2.last()[i] by {
                assert(l1.last()[i] == full[p1 + i]);
                assert(l2.last()[i] == full[p2 + i]);
            }
        }
        assert(spec_ndjson(l1.drop_last()) =~= spec_ndjson(l2.drop_last())) by {
            assert forall|i: int| 0 <= i < p1 implies spec_ndjson(l1.drop_last())[i]
                == spec_ndjson(l2.drop_last())[i] by {
                assert(spec_ndjson(l1.drop_last())[i] == full[i]);
                assert(spec_ndjson(l2.drop_last())[i] == full[i]);
            }
        }
        assert(forall|q: int|
            0 <= q < l1.drop_last().len() ==> crate::json::newline_free(
                #[trigger] l1.drop_last()[q],
            ));
        assert(forall|q: int|
            0 <= q < l2.drop_last().len() ==> crate::json::newline_free(
                #[trigger] l2.drop_last()[q],
            ));
        lemma_ndjson_lossless(l1.drop_last(), l2.drop_last());
        assert(l1 =~= l2) by {
            assert(l1.len() == l2.len());
            assert forall|q: int| 0 <= q < l1.len() implies l1[q] == l2[q] by {
                if q < l1.len() - 1 {
                    assert(l1[q] == l1.drop_last()[q]);
                    assert(l2[q] == l2.drop_last()[q]);
                } else {
                    assert(l1[q] == l1.last());
                    assert(l2[q] == l2.last());
                }
            }
        }
    }
}

/// Every record an archives batch emits is newline-free: it is the JSON
/// rendering of one normalized event.
pub proof fn lemma_encoded_line_newline_free(
    m0: Map<Seq<char>, Value>,
    schema: LogSchema,
    id: Seq<char>,
    date: Seq<char>,
    line: Seq<char>,
)
    requires
        spec_encoded_line_ok(m0, schema, id, date, line),
    ensures
        crate::json::newline_free(line),
{
    let (ids, dates, ne): (String, String, LogEvent) = choose|ids: String, dates: String, ne:
        LogEvent|
        #![auto]
        {
            &&& ids@ == id
            &&& dates@ == date
            &&& ne.wf()
            &&& spec_split_ok(
                spec_prenorm(
                    m0,
                    schema.timestamp_key@,
                    schema.message_key@,
                    schema.host_key@,
                    ids,
                    dates,
                ),
                ne.view(),
            )
            &&& line == spec_json_obj(ne.fields@)
        };
    crate::json::lemma_json_obj_newline_free(ne.fields@);
}

} // verus!
