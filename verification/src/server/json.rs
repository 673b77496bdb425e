use vstd::prelude::*;
use crate::net::{Cidr, cidr_text, push_cidr};
use crate::filer_service::service::FilterService;
use crate::filer_service::traffic::WhitelistRecord;
use crate::server::report::texts_view;
use crate::text::{push_all, push_decimal, decimal, decimal_text};
use serde_json::Value;

verus! {

/// A listing for the JSON API: a title, the column heads, and one row of texts per item.
#[derive(Debug, Clone)]
pub struct JsonTable {
    pub title: String,
    pub subtitle: Vec<String>,
    pub rows: Vec<Vec<String>>,
}

/// The views of a list of rows.
pub open spec fn rows_view(rows: Seq<Vec<String>>) -> Seq<Seq<Seq<char>>> {
    rows.map_values(|r: Vec<String>| texts_view(r@))
}

/// What the JSON API `func` lists: the whitelist traffic, the blacklist, or nothing.
#[derive(Debug, Clone, Copy, PartialEq, Eq, Structural)]
pub enum JsonQuery {
    Whitelist,
    Blacklist,
    Nothing,
}

/// What the JSON API lists: `listw` the whitelist, `listb` the blacklist, anything else nothing.
pub open spec fn json_query(func: Seq<char>) -> JsonQuery {
    if func == "listw"@ {
        JsonQuery::Whitelist
    } else if func == "listb"@ {
        JsonQuery::Blacklist
    } else {
        JsonQuery::Nothing
    }
}

/// What a call of the JSON API `func` lists.
pub fn api_func_json(func: &str) -> (q: JsonQuery)
    ensures
        q == json_query(func@),
{
    if crate::text::same_text(func, "listw") {
        JsonQuery::Whitelist
    } else if crate::text::same_text(func, "listb") {
        JsonQuery::Blacklist
    } else {
        JsonQuery::Nothing
    }
}

/// The title of a JSON listing: `head`, the count, and the client it was made for.
pub open spec fn json_title(head: Seq<char>, n: nat, client: Cidr) -> Seq<char> {
    head + decimal(n) + " ip  gen by: "@ + cidr_text(client)
}

/// The row of a traffic record: the block, its four counters, its location, and an empty
/// time of addition.
pub open spec fn whitelist_row(r: WhitelistRecord, location: Seq<char>) -> Seq<Seq<char>> {
    seq![cidr_text(r.ip), decimal(r.packets_out as nat), decimal(r.packets_in as nat),
        decimal(r.bandwidth_out as nat), decimal(r.bandwidth_in as nat), location, ""@]
}

/// The row of a blacklisted block: the block, its location, and an empty time of addition.
pub open spec fn blacklist_row(ip: Cidr, location: Seq<char>) -> Seq<Seq<char>> {
    seq![cidr_text(ip), location, ""@]
}

/// The column heads of the whitelist listing.
pub open spec fn whitelist_heads() -> Seq<Seq<char>> {
    seq!["ip"@, "packets_out"@, "packets_in"@, "bandwidth_out"@, "bandwidth_in"@, "ip_location"@, "addtime"@]
}

/// The column heads of the blacklist listing.
pub open spec fn blacklist_heads() -> Seq<Seq<char>> {
    seq!["ip"@, "ip_location"@, "addtime"@]
}

fn title(head: &str, n: usize, client: &Cidr) -> (s: String)
    ensures
        s@ == json_title(head@, n as nat, *client),
{
    let mut s = String::new();
    push_all(&mut s, head);
    push_decimal(&mut s, n as u64);
    push_all(&mut s, " ip  gen by: ");
    push_cidr(&mut s, client);
    assert(s@ =~= json_title(head@, n as nat, *client));
    s
}

/// The JSON listing of the whitelist traffic, each record with the location of its block.
pub fn whitelist_table(records: &Vec<WhitelistRecord>, locations: &Vec<String>, client: &Cidr) -> (t: JsonTable)
    requires
        records.len() == locations.len(),
    ensures
        t.title@ == json_title("[whitelist] has  "@, records@.len(), *client),
        texts_view(t.subtitle@) == whitelist_heads(),
        rows_view(t.rows@) == Seq::new(records@.len(), |i: int| whitelist_row(records@[i], locations@[i]@)),
{
    let mut subtitle: Vec<String> = Vec::new();
    subtitle.push("ip".to_string());
    subtitle.push("packets_out".to_string());
    subtitle.push("packets_in".to_string());
    subtitle.push("bandwidth_out".to_string());
    subtitle.push("bandwidth_in".to_string());
    subtitle.push("ip_location".to_string());
    subtitle.push("addtime".to_string());
    assert(texts_view(subtitle@) =~= whitelist_heads());
    let mut rows: Vec<Vec<String>> = Vec::new();
    let mut i: usize = 0;
    while i < records.len()
        invariant
            i <= records.len(),
            records.len() == locations.len(),
            rows_view(rows@) =~= Seq::new(i as nat, |k: int| whitelist_row(records@[k], locations@[k]@)),
        decreases records.len() - i,
    {
        let r = records[i];
        let mut row: Vec<String> = Vec::new();
        row.push(r.ip.to_string());
        row.push(decimal_text(r.packets_out as u64));
        row.push(decimal_text(r.packets_in as u64));
        row.push(decimal_text(r.bandwidth_out as u64));
        row.push(decimal_text(r.bandwidth_in as u64));
        row.push(locations[i].clone());
        row.push("".to_string());
        assert(texts_view(row@) =~= whitelist_row(records@[i as int], locations@[i as int]@));
        let ghost prev = rows_view(rows@);
        let ghost rv = texts_view(row@);
        rows.push(row);
        assert(rows_view(rows@) =~= prev.push(rv));
        i = i + 1;
    }
    JsonTable { title: title("[whitelist] has  ", records.len(), client), subtitle, rows }
}

/// The JSON listing of the blacklist of `service`, each block with its location.
pub fn blacklist_table(service: &FilterService, locations: &Vec<String>, client: &Cidr) -> (t: JsonTable)
    requires
        service@.blacklisted_ips.len() == locations.len(),
    ensures
        t.title@ == json_title("[blacklist] has "@, service@.blacklisted_ips.len(), *client),
        texts_view(t.subtitle@) == blacklist_heads(),
        rows_view(t.rows@) == Seq::new(service@.blacklisted_ips.len(),
            |i: int| blacklist_row(service@.blacklisted_ips[i], locations@[i]@)),
{
    let ips = &service.blacklisted_ips;
    let mut subtitle: Vec<String> = Vec::new();
    subtitle.push("ip".to_string());
    subtitle.push("ip_location".to_string());
    subtitle.push("addtime".to_string());
    assert(texts_view(subtitle@) =~= blacklist_heads());
    let mut rows: Vec<Vec<String>> = Vec::new();
    let mut i: usize = 0;
    while i < ips.len()
        invariant
            i <= ips.len(),
            ips.len() == locations.len(),
            rows_view(rows@) =~= Seq::new(i as nat, |k: int| blacklist_row(ips@[k], locations@[k]@)),
        decreases ips.len() - i,
    {
        let mut row: Vec<String> = Vec::new();
        row.push(ips[i].to_string());
        row.push(locations[i].clone());
        row.push("".to_string());
        assert(texts_view(row@) =~= blacklist_row(ips@[i as int], locations@[i as int]@));
        let ghost prev = rows_view(rows@);
        let ghost rv = texts_view(row@);
        rows.push(row);
        assert(rows_view(rows@) =~= prev.push(rv));
        i = i + 1;
    }
    JsonTable { title: title("[blacklist] has ", ips.len(), client), subtitle, rows }
}


/// The JSON text that `serde_json::to_string` writes for an object holding `title` under
/// `title_key`, the array of `heads` under `subtitle_key`, and the array of row arrays under
/// `data_key`.
pub uninterp spec fn json_listing(title_key: Seq<char>, subtitle_key: Seq<char>, data_key: Seq<char>, title: Seq<char>,
    heads: Seq<Seq<char>>, rows: Seq<Seq<Seq<char>>>) -> Seq<char>;

/// Writes a listing as JSON with `serde_json`: a `serde_json::Map` with the three entries,
/// each text a JSON string, serialized by `serde_json::to_string` (which cannot fail on a map
/// with string keys). Nothing is claimed of the text but that it is the one `json_listing`
/// names for the keys and values.
#[verifier::external_body]
fn json_listing_text(title_key: &str, subtitle_key: &str, data_key: &str, title: &String, heads: &Vec<String>,
    rows: &Vec<Vec<String>>) -> (s: String)
    ensures
        s@ == json_listing(title_key@, subtitle_key@, data_key@, title@, texts_view(heads@), rows_view(rows@)),
{
    let mut object = serde_json::Map::new();
    object.insert(title_key.to_string(), Value::String(title.clone()));
    object.insert(subtitle_key.to_string(), Value::Array(heads.iter().map(|h| Value::String(h.clone())).collect()));
    let data = rows.iter().map(|r| Value::Array(r.iter().map(|c| Value::String(c.clone())).collect())).collect();
    object.insert(data_key.to_string(), Value::Array(data));
    serde_json::to_string(&object).unwrap()
}

/// The body of a JSON API reply: `{}` where the call lists nothing, else the listing as a JSON
/// object with its title under `title`, its column heads under `subtitle` and its rows under
/// `data`.
pub fn api_json_body(q: JsonQuery, table: &Option<JsonTable>) -> (s: String)
    requires
        q != JsonQuery::Nothing ==> table is Some,
    ensures
        q == JsonQuery::Nothing ==> s@ == "{}"@,
        q != JsonQuery::Nothing ==> s@ == json_listing("title"@, "subtitle"@, "data"@, table->0.title@,
            texts_view(table->0.subtitle@), rows_view(table->0.rows@)),
{
    match q {
        JsonQuery::Nothing => "{}".to_string(),
        _ => match table {
            Some(t) => json_listing_text("title", "subtitle", "data", &t.title, &t.subtitle, &t.rows),
            None => { assert(false); "{}".to_string() },
        },
    }
}

} // verus!
