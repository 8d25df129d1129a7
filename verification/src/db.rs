//! What is recorded in the database: feeds and their cache keys, the services
//! configured, and the posts made. The tables themselves live with the caller;
//! this module forms their keys and reads their rows.
use vstd::prelude::*;
use vstd::string::*;

use crate::delay::ErrorMessage;
use crate::models::{spec_service_display, spec_service_number, spec_service_of_number, Service};
use crate::social_network::AlreadyPosted;
use crate::time::Instant;

verus! {

/// The length of a content hash.
pub const HASH_LEN: usize = 32;

/// The BLAKE3 hash of `data`.
pub uninterp spec fn blake3_digest(data: Seq<u8>) -> Seq<u8>;

/// `blake3::hash(data)`, as its 32 bytes: the hash named `blake3_digest`.
#[verifier::external_body]
fn blake3_hash(data: &[u8]) -> (r: [u8; 32])
    ensures
        r@ == blake3_digest(data@),
{
    *blake3::hash(data).as_bytes()
}

/// The hash of the text of a post, by which duplicates are found.
pub fn content_hash(content: &str) -> (r: [u8; 32])
    ensures
        r@ == blake3_digest(content.spec_bytes()),
{
    blake3_hash(content.as_bytes())
}

/// The hash of a body of bytes.
pub fn hash_bytes(data: &[u8]) -> (r: [u8; 32])
    ensures
        r@ == blake3_digest(data@),
{
    blake3_hash(data)
}

/// The key under which a post's text is recorded: the service's number and
/// the hash of the text.
pub fn posts_key(service: Service, content: &str) -> (r: (u8, [u8; 32]))
    ensures
        r.0 == spec_service_number(service),
        r.1@ == blake3_digest(content.spec_bytes()),
{
    (service.number(), content_hash(content))
}

/// The key under which a posted item is recorded: the service's number and
/// the item's identifier.
pub fn posted_items_key(service: Service, guid: &str) -> (r: (u8, String))
    ensures
        r.0 == spec_service_number(service),
        r.1@ == guid@,
{
    (service.number(), String::from_str(guid))
}

/// What the record of posts says of a post's text, given whether its key
/// (`posts_key`) was found: posted before, or not with the hash under which
/// it is to be recorded.
pub fn already_posted_from(found: bool, content: &str) -> (r: AlreadyPosted)
    ensures
        found ==> r is Yes,
        !found ==> (r matches AlreadyPosted::No(h) && h@ == blake3_digest(content.spec_bytes())),
{
    if found {
        AlreadyPosted::Yes
    } else {
        AlreadyPosted::No(content_hash(content))
    }
}

/// A feed as recorded between runs: its URL and the keys of its last fetch.
#[derive(Debug)]
pub struct Feed {
    pub url: String,
    pub etag: Option<String>,
    pub last_modified: Option<Instant>,
    pub last_refresh_hash: Option<[u8; 32]>,
    /// Whether the items present at the first fetch have been recorded.
    pub had_initial_sync: bool,
}

impl Feed {
    /// The record of a feed never fetched.
    pub fn unseen(url: &str) -> (f: Feed)
        ensures
            f.url@ == url@,
            f.etag is None,
            f.last_modified is None,
            f.last_refresh_hash is None,
            !f.had_initial_sync,
    {
        Feed {
            url: String::from_str(url),
            etag: None,
            last_modified: None,
            last_refresh_hash: None,
            had_initial_sync: false,
        }
    }
}

/// A post recorded as made.
#[derive(Debug)]
pub struct Tooted {
    pub guid: String,
    pub status: String,
    pub at: Instant,
}

/// The stored configuration of a service.
#[derive(Debug)]
pub struct ServiceData {
    pub service: Service,
    pub data: Vec<u8>,
}

/// The services that the rows of the services table denote, each row a
/// service number and its data; `None` at the first row with no service.
pub open spec fn spec_all_services(rows: Seq<(u8, Seq<u8>)>) -> Option<Seq<(Service, Seq<u8>)>>
    decreases rows.len(),
{
    if rows.len() == 0 {
        Some(seq![])
    } else {
        match spec_service_of_number(rows[0].0) {
            None => None,
            Some(s) => match spec_all_services(rows.drop_first()) {
                None => None,
                Some(rest) => Some(seq![(s, rows[0].1)] + rest),
            },
        }
    }
}

/// The views of rows.
pub open spec fn row_views(rows: Seq<(u8, Vec<u8>)>) -> Seq<(u8, Seq<u8>)> {
    rows.map_values(|r: (u8, Vec<u8>)| (r.0, r.1@))
}

/// The views of service data.
pub open spec fn service_data_views(list: Seq<ServiceData>) -> Seq<(Service, Seq<u8>)> {
    list.map_values(|d: ServiceData| (d.service, d.data@))
}

/// Reads every row of the services table.
pub fn services_from_rows(table_rows: Vec<(u8, Vec<u8>)>) -> (r: Result<Vec<ServiceData>, ErrorMessage>)
    ensures
        match spec_all_services(row_views(table_rows@)) {
            Some(list) => r matches Ok(v) && service_data_views(v@) == list,
            None => r matches Err(e) && e.0@ == "invalid service number"@,
        },
{
    let ghost all = row_views(table_rows@);
    let mut out: Vec<ServiceData> = Vec::new();
    let mut rows = table_rows;
    assert(row_views(rows@) =~= all.skip(0));
    while rows.len() > 0
        invariant
            all.len() == out@.len() + rows@.len(),
            all == row_views(table_rows@),
            row_views(rows@) =~= all.skip(out@.len() as int),
            spec_all_services(all) == match spec_all_services(all.skip(out@.len() as int)) {
                Some(rest) => Some(service_data_views(out@) + rest),
                None => None::<Seq<(Service, Seq<u8>)>>,
            },
        decreases rows@.len(),
    {
        let ghost k = out@.len();
        let ghost rest = all.skip(k as int);
        assert(rest.drop_first() =~= all.skip(k + 1 as int));
        let ghost rv = row_views(rows@);
        let (number, data) = rows.remove(0);
        assert(rv[0] == (number, data@));
        assert(row_views(rows@) =~= rv.drop_first());
        let service = match Service::try_from(number) {
            Ok(s) => s,
            Err(e) => {
                assert(rest[0] == (number, data@));
                assert(spec_all_services(rest) is None);
                return Err(e);
            },
        };
        let ghost before = out@;
        out.push(ServiceData { service, data });
        proof {
            assert(service_data_views(out@) =~= service_data_views(before).push((service, data@)));
            match spec_all_services(all.skip(k + 1 as int)) {
                Some(r2) => {
                    assert(service_data_views(out@) + r2 =~= service_data_views(before) + (seq![(service, data@)] + r2));
                },
                None => {},
            }
        }
    }
    assert(all.skip(out@.len() as int) =~= Seq::<(u8, Seq<u8>)>::empty());
    assert(service_data_views(out@) + Seq::<(Service, Seq<u8>)>::empty() =~= service_data_views(out@));
    Ok(out)
}

/// The data of the services asked for, each looked up in the services table
/// (`found[i]` the row of `specified[i]`); an error names the first that is
/// not configured.
pub open spec fn spec_specific_services(specified: Seq<Service>, found: Seq<Option<Seq<u8>>>) -> Result<
    Seq<(Service, Seq<u8>)>,
    Service,
>
    decreases specified.len(),
{
    if specified.len() == 0 || found.len() == 0 {
        Ok(seq![])
    } else {
        match found[0] {
            None => Err(specified[0]),
            Some(data) => match spec_specific_services(specified.drop_first(), found.drop_first()) {
                Err(s) => Err(s),
                Ok(rest) => Ok(seq![(specified[0], data)] + rest),
            },
        }
    }
}

/// The views of optional data.
pub open spec fn found_views(found: Seq<Option<Vec<u8>>>) -> Seq<Option<Seq<u8>>> {
    found.map_values(|f: Option<Vec<u8>>| match f {
        Some(d) => Some(d@),
        None => None,
    })
}

/// Pairs the services asked for with their rows.
pub fn specific_services(specified: &Vec<Service>, rows_found: Vec<Option<Vec<u8>>>) -> (r: Result<Vec<ServiceData>, ErrorMessage>)
    requires
        specified@.len() == rows_found@.len(),
    ensures
        match spec_specific_services(specified@, found_views(rows_found@)) {
            Ok(list) => r matches Ok(v) && service_data_views(v@) == list,
            Err(s) => r matches Err(e) && e.0@ == spec_service_display(s) + " is not configured"@,
        },
{
    let ghost fv = found_views(rows_found@);
    let mut out: Vec<ServiceData> = Vec::new();
    let mut found = rows_found;
    let n = specified.len();
    let mut i: usize = 0;
    assert(found_views(found@) =~= fv.skip(0));
    assert(specified@.skip(0) =~= specified@);
    while i < n
        invariant
            n == specified@.len(),
            fv.len() == n,
            fv == found_views(rows_found@),
            i <= n,
            out@.len() == i,
            found@.len() == n - i,
            found_views(found@) =~= fv.skip(i as int),
            spec_specific_services(specified@, fv) == match spec_specific_services(specified@.skip(i as int), fv.skip(i as int)) {
                Ok(rest) => Ok(service_data_views(out@) + rest),
                Err(s) => Err::<Seq<(Service, Seq<u8>)>, Service>(s),
            },
        decreases n - i,
    {
        let ghost rs = specified@.skip(i as int);
        let ghost rf = fv.skip(i as int);
        assert(rs.drop_first() =~= specified@.skip(i + 1));
        assert(rf.drop_first() =~= fv.skip(i + 1));
        let ghost fvs = found_views(found@);
        let item = found.remove(0);
        assert(found_views(found@) =~= fvs.drop_first());
        let service = specified[i];
        match item {
            None => {
                assert(rf[0] == fvs[0]);
                assert(rs[0] == service);
                assert(spec_specific_services(rs, rf) == Err::<Seq<(Service, Seq<u8>)>, Service>(service));
                let mut msg = service.to_display_string();
                msg.append(" is not configured");
                return Err(ErrorMessage(msg));
            },
            Some(data) => {
                let ghost before = out@;
                out.push(ServiceData { service, data });
                proof {
                    assert(service_data_views(out@) =~= service_data_views(before).push((service, data@)));
                    match spec_specific_services(specified@.skip(i + 1), fv.skip(i + 1)) {
                        Ok(r2) => {
                            assert(service_data_views(out@) + r2 =~= service_data_views(before) + (seq![(service, data@)] + r2));
                        },
                        Err(_) => {},
                    }
                }
            },
        }
        i = i + 1;
    }
    assert(specified@.skip(n as int).len() == 0);
    assert(service_data_views(out@) + Seq::<(Service, Seq<u8>)>::empty() =~= service_data_views(out@));
    Ok(out)
}

} // verus!
