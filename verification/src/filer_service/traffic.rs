use vstd::prelude::*;
use crate::net::{Cidr, address_text, first_of};
use crate::filer_service::service::FilterService;
use crate::text::{chars_of, contains, has_part, lines, text_lines, pieces_view, split_words, words, parse_u16, unsigned_value};

verus! {

/// The traffic counted for a whitelisted block: packets and bytes out and in.
#[derive(Clone, Copy, Debug, PartialEq, Eq, Structural)]
pub struct WhitelistRecord {
    pub ip: Cidr,
    pub packets_out: u16,
    pub packets_in: u16,
    pub bandwidth_out: u16,
    pub bandwidth_in: u16,
}

/// The lines of `ls` that contain `t`, in order.
pub open spec fn matching_lines(ls: Seq<Seq<char>>, t: Seq<char>) -> Seq<Seq<char>>
    decreases ls.len(),
{
    if ls.len() == 0 {
        Seq::empty()
    } else if has_part(ls.last(), t) {
        matching_lines(ls.drop_last(), t).push(ls.last())
    } else {
        matching_lines(ls.drop_last(), t)
    }
}

/// A counter as `iptables -vnL` lists it, read as a `u16`; 0 where it does not read as one.
pub open spec fn field_value(w: Seq<char>) -> u16 {
    match unsigned_value(w, 0xffff) {
        Some(v) => v as u16,
        None => 0,
    }
}

/// The record of `ip` from a line of the incoming chain and one of the outgoing chain: their
/// first field counts packets, their second bytes.
pub open spec fn record_of(ip: Cidr, in_line: Seq<char>, out_line: Seq<char>) -> WhitelistRecord {
    let i = words(in_line);
    let o = words(out_line);
    WhitelistRecord {
        ip,
        packets_out: field_value(o[0]),
        packets_in: field_value(i[0]),
        bandwidth_out: field_value(o[1]),
        bandwidth_in: field_value(i[1]),
    }
}

/// The incoming and outgoing listings that hold the counters of `ip` (IPv4 or IPv6).
pub open spec fn listings_of(ip: Cidr, in4: Seq<char>, out4: Seq<char>, in6: Seq<char>, out6: Seq<char>) -> (Seq<char>, Seq<char>) {
    if ip is V4 { (in4, out4) } else { (in6, out6) }
}

/// The lines of the incoming and outgoing listings that name the first address of `ip`.
pub open spec fn lines_of(ip: Cidr, in4: Seq<char>, out4: Seq<char>, in6: Seq<char>, out6: Seq<char>) -> (Seq<Seq<char>>, Seq<Seq<char>>) {
    let t = address_text(first_of(ip));
    let l = listings_of(ip, in4, out4, in6, out6);
    (matching_lines(text_lines(l.0), t), matching_lines(text_lines(l.1), t))
}

/// The records of `ip`: one per pair of matching lines, where both listings have as many.
pub open spec fn ip_records(ip: Cidr, in4: Seq<char>, out4: Seq<char>, in6: Seq<char>, out6: Seq<char>) -> Seq<WhitelistRecord> {
    let ls = lines_of(ip, in4, out4, in6, out6);
    if ls.0.len() == ls.1.len() {
        Seq::new(ls.0.len(), |k: int| record_of(ip, ls.0[k], ls.1[k]))
    } else {
        Seq::empty()
    }
}

/// The records of each block of `ips`, in order.
pub open spec fn all_records(ips: Seq<Cidr>, in4: Seq<char>, out4: Seq<char>, in6: Seq<char>, out6: Seq<char>) -> Seq<WhitelistRecord>
    decreases ips.len(),
{
    if ips.len() == 0 {
        Seq::empty()
    } else {
        all_records(ips.drop_last(), in4, out4, in6, out6) + ip_records(ips.last(), in4, out4, in6, out6)
    }
}

/// Whether each line of `ls` has two fields at least.
pub open spec fn have_two_fields(ls: Seq<Seq<char>>) -> bool {
    forall|k: int| 0 <= k < ls.len() ==> words(#[trigger] ls[k]).len() >= 2
}

/// Whether the records of `ip` can be read: where both listings have as many matching lines,
/// each of those lines has two fields.
pub open spec fn ip_records_readable(ip: Cidr, in4: Seq<char>, out4: Seq<char>, in6: Seq<char>, out6: Seq<char>) -> bool {
    let ls = lines_of(ip, in4, out4, in6, out6);
    ls.0.len() == ls.1.len() ==> have_two_fields(ls.0) && have_two_fields(ls.1)
}

/// Whether the records of every block of `ips` can be read.
pub open spec fn records_readable(ips: Seq<Cidr>, in4: Seq<char>, out4: Seq<char>, in6: Seq<char>, out6: Seq<char>) -> bool {
    forall|i: int| 0 <= i < ips.len() ==> ip_records_readable(#[trigger] ips[i], in4, out4, in6, out6)
}

/// The lines of `ls` that contain `t`.
fn select_lines(ls: &Vec<Vec<char>>, t: &Vec<char>) -> (r: Vec<Vec<char>>)
    ensures
        pieces_view(r@) == matching_lines(pieces_view(ls@), t@),
{
    let mut r: Vec<Vec<char>> = Vec::new();
    let mut i: usize = 0;
    while i < ls.len()
        invariant
            i <= ls.len(),
            pieces_view(r@) == matching_lines(pieces_view(ls@).take(i as int), t@),
        decreases ls.len() - i,
    {
        assert(pieces_view(ls@).take(i + 1).drop_last() =~= pieces_view(ls@).take(i as int));
        assert(pieces_view(ls@).take(i + 1).last() == ls@[i as int]@);
        if contains(&ls[i], t) {
            let ghost prev = pieces_view(r@);
            let l = ls[i].clone();
            r.push(l);
            assert(pieces_view(r@) =~= prev.push(ls@[i as int]@));
        }
        i = i + 1;
    }
    assert(pieces_view(ls@).take(ls.len() as int) =~= pieces_view(ls@));
    r
}

/// The lines of the four listings.
struct Listings {
    in4: Vec<Vec<char>>,
    out4: Vec<Vec<char>>,
    in6: Vec<Vec<char>>,
    out6: Vec<Vec<char>>,
}

fn listings(in4: &str, out4: &str, in6: &str, out6: &str) -> (l: Listings)
    ensures
        pieces_view(l.in4@) == text_lines(in4@),
        pieces_view(l.out4@) == text_lines(out4@),
        pieces_view(l.in6@) == text_lines(in6@),
        pieces_view(l.out6@) == text_lines(out6@),
{
    Listings {
        in4: lines(&chars_of(in4)),
        out4: lines(&chars_of(out4)),
        in6: lines(&chars_of(in6)),
        out6: lines(&chars_of(out6)),
    }
}

/// The matching lines of `ip` in the listings.
fn lines_for(ip: &Cidr, l: &Listings, Ghost(in4): Ghost<Seq<char>>, Ghost(out4): Ghost<Seq<char>>,
    Ghost(in6): Ghost<Seq<char>>, Ghost(out6): Ghost<Seq<char>>) -> (r: (Vec<Vec<char>>, Vec<Vec<char>>))
    requires
        pieces_view(l.in4@) == text_lines(in4),
        pieces_view(l.out4@) == text_lines(out4),
        pieces_view(l.in6@) == text_lines(in6),
        pieces_view(l.out6@) == text_lines(out6),
    ensures
        (pieces_view(r.0@), pieces_view(r.1@)) == lines_of(*ip, in4, out4, in6, out6),
{
    let first = ip.first_as_ip_addr();
    let t = chars_of(first.to_string().as_str());
    if ip.is_v4() {
        (select_lines(&l.in4, &t), select_lines(&l.out4, &t))
    } else {
        (select_lines(&l.in6, &t), select_lines(&l.out6, &t))
    }
}

fn field(w: &Vec<char>) -> (v: u16)
    ensures
        v == field_value(w@),
{
    match parse_u16(w) {
        Some(v) => v,
        None => 0,
    }
}

fn have_fields(ls: &Vec<Vec<char>>) -> (r: bool)
    ensures
        r == have_two_fields(pieces_view(ls@)),
{
    let mut k: usize = 0;
    while k < ls.len()
        invariant
            k <= ls.len(),
            forall|j: int| 0 <= j < k ==> words(#[trigger] pieces_view(ls@)[j]).len() >= 2,
        decreases ls.len() - k,
    {
        let w = split_words(&ls[k]);
        if w.len() < 2 {
            assert(words(pieces_view(ls@)[k as int]).len() < 2);
            return false;
        }
        k = k + 1;
    }
    true
}

impl FilterService {
    /// The traffic records of the whitelisted blocks, from the listings of the incoming and
    /// outgoing chains (`iptables -vnL`, IPv4 and IPv6); none where the listings could not be
    /// had. For each block, the lines naming its first address are read in pairs.
    pub fn get_whitelist_data(&self, succeeded: bool, input: &str, output: &str, input_v6: &str, output_v6: &str)
        -> (r: Vec<WhitelistRecord>)
        requires
            succeeded ==> records_readable(self@.whitelisted_ips, input@, output@, input_v6@, output_v6@),
        ensures
            r@ == if succeeded { all_records(self@.whitelisted_ips, input@, output@, input_v6@, output_v6@) } else { Seq::empty() },
    {
        let mut wrs: Vec<WhitelistRecord> = Vec::new();
        if !succeeded {
            return wrs;
        }
        let l = listings(input, output, input_v6, output_v6);
        let ghost ips = self.whitelisted_ips@;
        let mut i: usize = 0;
        while i < self.whitelisted_ips.len()
            invariant
                i <= ips.len(),
                ips == self.whitelisted_ips@,
                records_readable(ips, input@, output@, input_v6@, output_v6@),
                pieces_view(l.in4@) == text_lines(input@),
                pieces_view(l.out4@) == text_lines(output@),
                pieces_view(l.in6@) == text_lines(input_v6@),
                pieces_view(l.out6@) == text_lines(output_v6@),
                wrs@ == all_records(ips.take(i as int), input@, output@, input_v6@, output_v6@),
            decreases ips.len() - i,
        {
            let ip = self.whitelisted_ips[i];
            assert(ips.take(i + 1).drop_last() =~= ips.take(i as int));
            assert(ip_records_readable(ips[i as int], input@, output@, input_v6@, output_v6@));
            let (lines_in, lines_out) = lines_for(&ip, &l, Ghost(input@), Ghost(output@), Ghost(input_v6@), Ghost(output_v6@));
            let ghost before = wrs@;
            let ghost expected = ip_records(ip, input@, output@, input_v6@, output_v6@);
            if lines_in.len() == lines_out.len() {
                let mut k: usize = 0;
                while k < lines_in.len()
                    invariant
                        k <= lines_in.len(),
                        lines_in.len() == lines_out.len(),
                        have_two_fields(pieces_view(lines_in@)),
                        have_two_fields(pieces_view(lines_out@)),
                        expected.len() == lines_in.len(),
                        forall|j: int| 0 <= j < expected.len() ==> #[trigger] expected[j]
                            == record_of(ip, pieces_view(lines_in@)[j], pieces_view(lines_out@)[j]),
                        wrs@ == before + expected.take(k as int),
                    decreases lines_in.len() - k,
                {
                    let in_field = split_words(&lines_in[k]);
                    let out_field = split_words(&lines_out[k]);
                    assert(words(pieces_view(lines_in@)[k as int]).len() >= 2);
                    assert(words(pieces_view(lines_out@)[k as int]).len() >= 2);
                    assert(pieces_view(in_field@)[0] == in_field@[0]@);
                    assert(pieces_view(in_field@)[1] == in_field@[1]@);
                    assert(pieces_view(out_field@)[0] == out_field@[0]@);
                    assert(pieces_view(out_field@)[1] == out_field@[1]@);
                    let wr = WhitelistRecord {
                        ip,
                        packets_out: field(&out_field[0]),
                        packets_in: field(&in_field[0]),
                        bandwidth_out: field(&out_field[1]),
                        bandwidth_in: field(&in_field[1]),
                    };
                    assert(wr == expected[k as int]);
                    wrs.push(wr);
                    k = k + 1;
                    assert(expected.take(k as int) =~= expected.take(k - 1).push(wr));
                }
                assert(expected.take(lines_in.len() as int) =~= expected);
            } else {
                assert(expected =~= Seq::<WhitelistRecord>::empty());
                assert(wrs@ =~= before + expected);
            }
            i = i + 1;
        }
        assert(ips.take(ips.len() as int) =~= ips);
        wrs
    }

    /// Whether the records of every whitelisted block can be read from the listings.
    pub fn records_are_readable(&self, input: &str, output: &str, input_v6: &str, output_v6: &str) -> (r: bool)
        ensures
            r == records_readable(self@.whitelisted_ips, input@, output@, input_v6@, output_v6@),
    {
        let l = listings(input, output, input_v6, output_v6);
        let ghost ips = self.whitelisted_ips@;
        let mut i: usize = 0;
        while i < self.whitelisted_ips.len()
            invariant
                i <= ips.len(),
                ips == self.whitelisted_ips@,
                pieces_view(l.in4@) == text_lines(input@),
                pieces_view(l.out4@) == text_lines(output@),
                pieces_view(l.in6@) == text_lines(input_v6@),
                pieces_view(l.out6@) == text_lines(output_v6@),
                forall|j: int| 0 <= j < i ==> ip_records_readable(#[trigger] ips[j], input@, output@, input_v6@, output_v6@),
            decreases ips.len() - i,
        {
            let ip = self.whitelisted_ips[i];
            let (lines_in, lines_out) = lines_for(&ip, &l, Ghost(input@), Ghost(output@), Ghost(input_v6@), Ghost(output_v6@));
            if lines_in.len() == lines_out.len() {
                if !have_fields(&lines_in) || !have_fields(&lines_out) {
                    assert(!ip_records_readable(ips[i as int], input@, output@, input_v6@, output_v6@));
                    return false;
                }
            }
            i = i + 1;
        }
        true
    }

    /// The traffic records where every one can be read (see `get_whitelist_data`); `None` where
    /// a pair of matching lines lacks a field.
    pub fn whitelist_data(&self, succeeded: bool, input: &str, output: &str, input_v6: &str, output_v6: &str)
        -> (r: Option<Vec<WhitelistRecord>>)
        ensures
            r is None <==> (succeeded && !records_readable(self@.whitelisted_ips, input@, output@, input_v6@, output_v6@)),
            r matches Some(v) ==> v@ == if succeeded { all_records(self@.whitelisted_ips, input@, output@, input_v6@, output_v6@) } else { Seq::empty() },
    {
        if succeeded && !self.records_are_readable(input, output, input_v6, output_v6) {
            return None;
        }
        Some(self.get_whitelist_data(succeeded, input, output, input_v6, output_v6))
    }
}

} // verus!
