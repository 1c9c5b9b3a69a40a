//! Network — strictly local. The default gateway comes from the routing table
//! (`/proc/net/route`), its round-trip time from one `ping`, the interfaces
//! that are up from `/sys/class/net` and the name servers from
//! `/etc/resolv.conf`. No host beyond the local network is contacted.
use vstd::prelude::*;

use crate::check::{metric, metric_view, texts, CheckResult, ResultView};
use crate::config::NetworkCheckConfig;
use crate::numfmt::{
    decimal_milli_of, digits, digits_of, fmt_milli, fmt_milli_exec, is_digit,
    parse_decimal_milli, Milli,
};
use crate::source::{opt_text, Commands};
use crate::text::{
    ascending, chars_of, eq_str, find_from, insert_sorted, occurs_at, find_str, join, join_strings, lemma_find_from,
    lemma_prefix_len_at, lines, prefix_len, push_all, push_str, slice_vec, split_lines,
    split_words, starts_with, string_of, strip_prefix_str, strs_view, trim, trim_chars, views,
    words,
};

verus! {

// --- Hexadecimal ----------------------------------------------------------------

pub open spec fn is_hex(c: char) -> bool {
    ||| '0' <= c <= '9'
    ||| 'a' <= c <= 'f'
    ||| 'A' <= c <= 'F'
}

pub open spec fn hex_val(c: char) -> nat {
    if '0' <= c <= '9' {
        ((c as u32) - 48) as nat
    } else if 'a' <= c <= 'f' {
        ((c as u32) - 87) as nat
    } else {
        ((c as u32) - 55) as nat
    }
}

pub open spec fn all_hex(s: Seq<char>) -> bool {
    forall|i: int| 0 <= i < s.len() ==> is_hex(#[trigger] s[i])
}

/// The number a run of hexadecimal digits denotes.
pub open spec fn hex_value(s: Seq<char>) -> nat
    decreases s.len(),
{
    if s.len() == 0 {
        0
    } else {
        hex_value(s.drop_last()) * 16 + hex_val(s.last())
    }
}

/// `u32::from_str_radix(s, 16)`: an optional `+`, then one or more
/// hexadecimal digits, within range.
pub open spec fn parse_hex_u32_of(s: Seq<char>) -> Option<u32> {
    let d = if s.len() > 0 && s[0] == '+' {
        s.drop_first()
    } else {
        s
    };
    if d.len() == 0 || !all_hex(d) || hex_value(d) > u32::MAX {
        None
    } else {
        Some(hex_value(d) as u32)
    }
}

fn hex_digit(c: char) -> (r: Option<u64>)
    ensures
        r is Some <==> is_hex(c),
        r matches Some(v) ==> v == hex_val(c) && v < 16,
{
    if '0' <= c && c <= '9' {
        Some((c as u32 - 48) as u64)
    } else if 'a' <= c && c <= 'f' {
        Some((c as u32 - 87) as u64)
    } else if 'A' <= c && c <= 'F' {
        Some((c as u32 - 55) as u64)
    } else {
        None
    }
}

proof fn lemma_hex_value_monotone(s: Seq<char>, n: int)
    requires
        0 <= n <= s.len(),
        all_hex(s),
    ensures
        hex_value(s) >= hex_value(s.take(n)),
    decreases s.len() - n,
{
    if n < s.len() {
        lemma_hex_value_monotone(s, n + 1);
        assert(s.take(n + 1).drop_last() =~= s.take(n));
    } else {
        assert(s.take(n) =~= s);
    }
}

/// `u32::from_str_radix(s, 16)`.
pub fn parse_hex_u32(s: &Vec<char>) -> (r: Option<u32>)
    ensures
        r == parse_hex_u32_of(s@),
{
    let start: usize = if s.len() > 0 && s[0] == '+' {
        1
    } else {
        0
    };
    let ghost d = if start == 1 {
        s@.drop_first()
    } else {
        s@
    };
    proof {
        assert(s@.skip(start as int) =~= d);
    }
    if start == s.len() {
        return None;
    }
    let mut k = start;
    while k < s.len()
        invariant
            start <= k <= s.len(),
            d == s@.skip(start as int),
            d == (if s@.len() > 0 && s@[0] == '+' {
                s@.drop_first()
            } else {
                s@
            }),
            forall|j: int| start <= j < k ==> is_hex(#[trigger] s@[j]),
        decreases s.len() - k,
    {
        if hex_digit(s[k]).is_none() {
            assert(d[k - start] == s@[k as int]);
            assert(!is_hex(d[k - start]));
            assert(!all_hex(d));
            return None;
        }
        k = k + 1;
    }
    assert forall|i: int| 0 <= i < d.len() implies is_hex(#[trigger] d[i]) by {
        assert(d[i] == s@[i + start]);
    }
    let mut v: u64 = 0;
    let mut k = start;
    while k < s.len()
        invariant
            start <= k <= s.len(),
            d == s@.skip(start as int),
            d == (if s@.len() > 0 && s@[0] == '+' {
                s@.drop_first()
            } else {
                s@
            }),
            all_hex(d),
            v == hex_value(d.take(k - start)),
            v <= u32::MAX,
        decreases s.len() - k,
    {
        let h = match hex_digit(s[k]) {
            Some(h) => h,
            None => {
                assert(is_hex(d[k - start]));
                return None;
            },
        };
        proof {
            assert(d.take(k - start + 1).drop_last() =~= d.take(k - start));
            assert(d.take(k - start + 1).last() == s@[k as int]);
        }
        v = v * 16 + h;
        assert(v == hex_value(d.take(k - start + 1)));
        if v > 0xffff_ffff {
            proof {
                lemma_hex_value_monotone(d, k - start + 1);
                assert(hex_value(d) > u32::MAX);
            }
            return None;
        }
        k = k + 1;
    }
    assert(d.take(d.len() as int) =~= d);
    Some(v as u32)
}

// --- The routing table --------------------------------------------------------

/// An IPv4 address, most significant octet first.
pub type Octets = (u8, u8, u8, u8);

/// The four bytes of `raw`, least significant first (`u32::to_le_bytes`).
pub open spec fn octets_le(raw: u32) -> Octets {
    (
        (raw % 256) as u8,
        ((raw / 256) % 256) as u8,
        ((raw / 65536) % 256) as u8,
        (raw / 16777216) as u8,
    )
}

/// The routing table's rows: every line after the header.
pub open spec fn route_lines(content: Seq<char>) -> Seq<Seq<char>> {
    let ls = lines(content);
    if ls.len() > 0 {
        ls.drop_first()
    } else {
        seq![]
    }
}

/// The gateway of the first default route (destination `00000000`) with a
/// non-zero gateway. A row with fewer than three fields, or a default route
/// whose gateway is not hexadecimal, ends the search with nothing.
pub open spec fn gateway_in(rows: Seq<Seq<char>>) -> Option<Octets>
    decreases rows.len(),
{
    if rows.len() == 0 {
        None
    } else {
        let f = words(rows[0]);
        if f.len() < 3 {
            None
        } else if f[1] == "00000000"@ {
            match parse_hex_u32_of(f[2]) {
                None => None,
                Some(raw) => if raw == 0 {
                    gateway_in(rows.drop_first())
                } else {
                    Some(octets_le(raw))
                },
            }
        } else {
            gateway_in(rows.drop_first())
        }
    }
}

pub open spec fn default_gateway_of(content: Seq<char>) -> Option<Octets> {
    gateway_in(route_lines(content))
}

/// The default-route gateway of a `/proc/net/route` table (hexadecimal,
/// little-endian).
pub fn parse_default_gateway(content: &str) -> (r: Option<Octets>)
    ensures
        r == default_gateway_of(content@),
{
    let all = split_lines(&chars_of(content));
    let ghost ls = views(all@);
    if all.len() == 0 {
        return None;
    }
    proof {
        assert(ls.skip(1) =~= route_lines(content@));
    }
    let mut i: usize = 1;
    while i < all.len()
        invariant
            1 <= i <= all.len(),
            ls == views(all@),
            ls == lines(content@),
            gateway_in(ls.skip(i as int)) == default_gateway_of(content@),
        decreases all.len() - i,
    {
        proof {
            assert(ls.skip(i as int)[0] == all@[i as int]@);
            assert(ls.skip(i as int).drop_first() =~= ls.skip(i + 1));
        }
        let f = split_words(&all[i]);
        if f.len() < 3 {
            return None;
        }
        proof {
            assert(views(f@)[1] == f@[1]@);
            assert(views(f@)[2] == f@[2]@);
        }
        if eq_str(&f[1], "00000000") {
            match parse_hex_u32(&f[2]) {
                None => {
                    return None;
                },
                Some(raw) => {
                    if raw != 0 {
                        let o = (
                            (raw % 256) as u8,
                            ((raw / 256) % 256) as u8,
                            ((raw / 65536) % 256) as u8,
                            (raw / 16777216) as u8,
                        );
                        return Some(o);
                    }
                },
            }
        }
        i = i + 1;
    }
    proof {
        assert(ls.skip(i as int) =~= Seq::<Seq<char>>::empty());
    }
    None
}

/// The dotted form of an address (`192.168.1.1`).
pub open spec fn dotted(a: Octets) -> Seq<char> {
    digits(a.0 as nat) + "."@ + digits(a.1 as nat) + "."@ + digits(a.2 as nat) + "."@ + digits(
        a.3 as nat,
    )
}

/// An address written in dotted form.
pub fn dotted_text(a: Octets) -> (s: String)
    ensures
        s@ == dotted(a),
{
    let mut out: Vec<char> = Vec::new();
    push_all(&mut out, &digits_of(a.0 as u64));
    push_str(&mut out, ".");
    push_all(&mut out, &digits_of(a.1 as u64));
    push_str(&mut out, ".");
    push_all(&mut out, &digits_of(a.2 as u64));
    push_str(&mut out, ".");
    push_all(&mut out, &digits_of(a.3 as u64));
    string_of(out.as_slice())
}

// --- Interfaces and name servers ------------------------------------------------

/// An interface worth listing: not the loopback, and `up` in `operstate`.
pub fn is_listed_interface(name: &str, operstate: &str) -> (b: bool)
    ensures
        b == (name@ != "lo"@ && trim(operstate@) == "up"@),
{
    let n = chars_of(name);
    let s = trim_chars(&chars_of(operstate));
    !eq_str(&n, "lo") && eq_str(&s, "up")
}

/// The interfaces worth listing among `(name, operstate)` pairs, in order.
pub open spec fn listed_interfaces(entries: Seq<(Seq<char>, Seq<char>)>) -> Seq<Seq<char>>
    decreases entries.len(),
{
    if entries.len() == 0 {
        seq![]
    } else {
        let rest = listed_interfaces(entries.drop_last());
        let (name, state) = entries.last();
        if name != "lo"@ && trim(state) == "up"@ {
            rest.push(name)
        } else {
            rest
        }
    }
}

pub open spec fn pair_views(v: Seq<(String, String)>) -> Seq<(Seq<char>, Seq<char>)> {
    Seq::new(v.len(), |i: int| (v[i].0@, v[i].1@))
}

/// The interfaces that are up, the loopback aside, from each interface's
/// name and `operstate`, in ascending order.
pub fn up_interfaces(entries: Vec<(String, String)>) -> (r: Vec<String>)
    ensures
        ascending(texts(r@)),
        texts(r@).to_multiset() == listed_interfaces(pair_views(entries@)).to_multiset(),
{
    let ghost es = pair_views(entries@);
    let mut r: Vec<String> = Vec::new();
    let mut i: usize = 0;
    assert(es.take(0) =~= Seq::<(Seq<char>, Seq<char>)>::empty());
    assert(texts(r@) =~= listed_interfaces(es.take(0)));
    while i < entries.len()
        invariant
            i <= entries@.len(),
            es == pair_views(entries@),
            ascending(texts(r@)),
            texts(r@).to_multiset() == listed_interfaces(es.take(i as int)).to_multiset(),
        decreases entries@.len() - i,
    {
        proof {
            assert(es.take(i + 1).drop_last() =~= es.take(i as int));
            assert(es.take(i + 1).last() == es[i as int]);
        }
        let (name, state) = (&entries[i].0, &entries[i].1);
        if is_listed_interface(name.as_str(), state.as_str()) {
            let ghost prev = listed_interfaces(es.take(i as int));
            let kept = string_of(chars_of(name.as_str()).as_slice());
            insert_sorted(&mut r, kept);
            proof {
                vstd::seq_lib::to_multiset_build(prev, name@);
            }
        }
        i = i + 1;
    }
    assert(es.take(entries@.len() as int) =~= es);
    r
}

/// The address a `resolv.conf` line names, if it is a `nameserver` line.
pub open spec fn nameserver_of(line: Seq<char>) -> Option<Seq<char>> {
    let t = trim(line);
    if starts_with(t, "nameserver"@) {
        let rest = trim(t.skip("nameserver"@.len() as int));
        if rest.len() > 0 {
            Some(rest)
        } else {
            None
        }
    } else {
        None
    }
}

pub open spec fn nameservers_in(ls: Seq<Seq<char>>) -> Seq<Seq<char>>
    decreases ls.len(),
{
    if ls.len() == 0 {
        seq![]
    } else {
        nameservers_in(ls.drop_last()) + match nameserver_of(ls.last()) {
            Some(n) => seq![n],
            None => seq![],
        }
    }
}

/// The `nameserver` entries of a `resolv.conf`-style file, in order.
pub fn parse_nameservers(content: &str) -> (r: Vec<String>)
    ensures
        texts(r@) == nameservers_in(lines(content@)),
{
    let all = split_lines(&chars_of(content));
    let ghost ls = views(all@);
    let mut r: Vec<String> = Vec::new();
    let mut i: usize = 0;
    while i < all.len()
        invariant
            i <= all.len(),
            ls == views(all@),
            ls == lines(content@),
            texts(r@) == nameservers_in(ls.take(i as int)),
        decreases all.len() - i,
    {
        proof {
            assert(ls.take(i + 1).drop_last() =~= ls.take(i as int));
            assert(ls.take(i + 1).last() == all@[i as int]@);
        }
        let ghost before = r@;
        let t = trim_chars(&all[i]);
        match strip_prefix_str(&t, "nameserver") {
            Some(rest) => {
                let addr = trim_chars(&rest);
                if addr.len() > 0 {
                    r.push(string_of(addr.as_slice()));
                    assert(texts(r@) =~= texts(before) + seq![addr@]);
                } else {
                    assert(texts(r@) =~= texts(before) + Seq::<Seq<char>>::empty());
                }
            },
            None => {
                assert(texts(r@) =~= texts(before) + Seq::<Seq<char>>::empty());
            },
        }
        i = i + 1;
    }
    assert(ls.take(all.len() as int) =~= ls);
    r
}

// --- Round-trip time ------------------------------------------------------------

pub open spec fn digit_or_dot_pred() -> spec_fn(char) -> bool {
    |c: char| is_digit(c) || c == '.'
}

/// The `time=…` round-trip value (in thousandths of a millisecond) of a
/// `ping` reply: the run of digits and dots after the first `time=`.
pub open spec fn ping_time_of(out: Seq<char>) -> Option<Milli> {
    match find_from(out, "time="@, 0) {
        None => None,
        Some(i) => {
            let rest = out.skip(i + "time="@.len());
            decimal_milli_of(rest.take(prefix_len(rest, digit_or_dot_pred()) as int))
        },
    }
}

/// Pull the `time=…` round-trip value out of `ping` output.
pub fn parse_ping_time(stdout: &str) -> (r: Option<Milli>)
    ensures
        r == ping_time_of(stdout@),
{
    let s = chars_of(stdout);
    match find_str(&s, "time=") {
        None => None,
        Some(i) => {
            proof {
                reveal_strlit("time=");
                lemma_find_from(s@, "time="@, 0);
                assert("time="@.len() == 5);
                assert(occurs_at(s@, "time="@, i as int));
                assert(i + 5 <= s.len());
            }
            let start = i + 5;
            let ghost rest = s@.skip(start as int);
            let mut k = start;
            while k < s.len() && (('0' <= s[k] && s[k] <= '9') || s[k] == '.')
                invariant
                    start <= k <= s.len(),
                    forall|j: int| start <= j < k ==> (digit_or_dot_pred())(#[trigger] s@[j]),
                decreases s.len() - k,
            {
                k = k + 1;
            }
            proof {
                assert forall|j: int| 0 <= j < k - start implies (digit_or_dot_pred())(
                    #[trigger] rest[j],
                ) by {
                    assert(rest[j] == s@[j + start]);
                }
                if k < s.len() {
                    assert(rest[k - start] == s@[k as int]);
                }
                lemma_prefix_len_at(rest, digit_or_dot_pred(), k - start);
                assert(rest.take(k - start) =~= s@.subrange(start as int, k as int));
            }
            let number = slice_vec(&s, start, k);
            parse_decimal_milli(&number)
        },
    }
}

/// The latency a `ping` reply gives; none when ping failed.
pub fn latency_from_reply(reply: Option<&str>) -> (r: Option<Milli>)
    ensures
        reply is None ==> r is None,
        reply matches Some(o) ==> r == ping_time_of(o@),
{
    match reply {
        None => None,
        Some(o) => parse_ping_time(o),
    }
}

/// One ping to the gateway, waiting a second at most.
pub open spec fn ping_args(gateway: Octets) -> Seq<Seq<char>> {
    seq!["-c"@, "1"@, "-W"@, "1"@, dotted(gateway)]
}

/// The latency a `ping` reply gives; none when ping failed.
pub open spec fn latency_of(reply: Option<Seq<char>>) -> Option<Milli> {
    match reply {
        None => None,
        Some(o) => ping_time_of(o),
    }
}

/// Ping the gateway once (`ping -c 1 -W 1 <gateway>`) and read its latency;
/// `None` when the command fails or gives no time.
pub fn ping_latency<C: Commands + ?Sized>(commands: &C, gateway: Octets) -> (r: Option<Milli>)
    ensures
        exists|reply: Option<Seq<char>>|
            commands.may_answer("ping"@, ping_args(gateway), reply) && r == latency_of(reply),
{
    let ip = dotted_text(gateway);
    let args = vec!["-c", "1", "-W", "1", ip.as_str()];
    assert(strs_view(args@) =~= ping_args(gateway));
    let reply = commands.output("ping", args.as_slice());
    let r = match &reply {
        None => None,
        Some(o) => latency_from_reply(Some(o.as_str())),
    };
    assert(r == latency_of(opt_text(reply)));
    assert(commands.may_answer("ping"@, ping_args(gateway), opt_text(reply)));
    r
}

// --- The report -----------------------------------------------------------------

/// The measured value, the status line and the headline: the latency when
/// the gateway answered, the warning threshold when it did not or when there
/// is no gateway at all (offline or ICMP-filtered is a nudge, not a panic).
pub open spec fn network_reading(gateway: Option<Octets>, latency: Option<Milli>, warning: Milli) -> (
    int,
    Seq<char>,
    Seq<char>,
) {
    match gateway {
        Some(gw) => match latency {
            Some(ms) => (
                ms as int,
                fmt_milli(ms as int, 0) + " ms (passerelle)"@,
                "Passerelle "@ + dotted(gw) + " — "@ + fmt_milli(ms as int, 1) + " ms"@,
            ),
            None => (
                warning as int,
                "Passerelle injoignable"@,
                "Passerelle "@ + dotted(gw) + " injoignable (ICMP filtré ou hors ligne ?)"@,
            ),
        },
        None => (
            warning as int,
            "Hors ligne"@,
            "Aucune passerelle par défaut (machine hors ligne ?)."@,
        ),
    }
}

pub open spec fn network_result_view(
    gateway: Option<Octets>,
    latency: Option<Milli>,
    interfaces: Seq<Seq<char>>,
    nameservers: Seq<Seq<char>>,
    config: NetworkCheckConfig,
) -> ResultView {
    let reading = network_reading(gateway, latency, config.warning);
    ResultView {
        check: "network"@,
        metrics: seq![
            metric_view(
                "gateway_latency_ms"@,
                reading.0,
                "ms"@,
                Some(config.warning),
                Some(config.critical),
            ),
        ],
        details: seq![
            reading.2,
            if interfaces.len() == 0 {
                "Aucune interface active hors loopback."@
            } else {
                "Interfaces actives : "@ + join(interfaces, ", "@)
            },
        ] + if nameservers.len() > 0 {
            seq!["DNS configurés : "@ + join(nameservers, ", "@)]
        } else {
            seq![]
        },
        top: seq![],
        status: Some(reading.1),
    }
}

fn lead_then(lead: &str, tail: &str) -> (s: String)
    ensures
        s@ == lead@ + tail@,
{
    let mut out: Vec<char> = Vec::new();
    push_str(&mut out, lead);
    push_str(&mut out, tail);
    string_of(out.as_slice())
}

/// The report for what was found: the gateway (if any), its latency (if it
/// answered), the interfaces that are up and the configured name servers.
pub fn build_result(
    gateway: Option<Octets>,
    latency: Option<Milli>,
    interfaces: &Vec<String>,
    nameservers: &Vec<String>,
    config: &NetworkCheckConfig,
) -> (r: CheckResult)
    ensures
        r@ == network_result_view(gateway, latency, texts(interfaces@), texts(nameservers@), *config),
{
    let (value, status, headline) = match gateway {
        Some(gw) => {
            let ip = chars_of(dotted_text(gw).as_str());
            match latency {
                Some(ms) => {
                    let mut st: Vec<char> = Vec::new();
                    push_all(&mut st, &fmt_milli_exec(ms as i128, 0));
                    push_str(&mut st, " ms (passerelle)");
                    let mut head: Vec<char> = Vec::new();
                    push_str(&mut head, "Passerelle ");
                    push_all(&mut head, &ip);
                    push_str(&mut head, " — ");
                    push_all(&mut head, &fmt_milli_exec(ms as i128, 1));
                    push_str(&mut head, " ms");
                    (ms, string_of(st.as_slice()), string_of(head.as_slice()))
                },
                None => {
                    let mut head: Vec<char> = Vec::new();
                    push_str(&mut head, "Passerelle ");
                    push_all(&mut head, &ip);
                    push_str(&mut head, " injoignable (ICMP filtré ou hors ligne ?)");
                    (
                        config.warning,
                        "Passerelle injoignable".to_string(),
                        string_of(head.as_slice()),
                    )
                },
            }
        },
        None => (
            config.warning,
            "Hors ligne".to_string(),
            "Aucune passerelle par défaut (machine hors ligne ?).".to_string(),
        ),
    };
    let mut details: Vec<String> = Vec::new();
    details.push(headline);
    if interfaces.len() == 0 {
        details.push("Aucune interface active hors loopback.".to_string());
    } else {
        let joined = join_strings(interfaces, ", ");
        details.push(lead_then("Interfaces actives : ", joined.as_str()));
    }
    if nameservers.len() > 0 {
        let joined = join_strings(nameservers, ", ");
        details.push(lead_then("DNS configurés : ", joined.as_str()));
    }
    let metrics = vec![
        metric("gateway_latency_ms", value, "ms", Some(config.warning), Some(config.critical)),
    ];
    let r = CheckResult {
        check_name: "network".to_string(),
        metrics,
        details,
        top_processes: Vec::new(),
        status_value: Some(status),
    };
    let ghost want = network_result_view(
        gateway,
        latency,
        texts(interfaces@),
        texts(nameservers@),
        *config,
    );
    assert(r@.details =~= want.details);
    assert(r@.metrics =~= want.metrics);
    assert(r@.top =~= want.top);
    r
}

} // verus!
