//! The profile store: deterministic path mapping, listing and filtering of
//! profile files, credential extraction from profile text, and rendering of
//! new profiles.  Reading and writing the files themselves is left to the
//! caller, which hands file names and contents in as plain strings.
use vstd::prelude::*;
use vstd::string::*;

use crate::server::{endpoint_spec, Server};
use crate::text::{
    codes_sorted, contains_str, eq_str, find_char, first_idx, insert_sorted, is_ws,
    lemma_end_trim_is, lemma_first_idx_is, lemma_first_non_ws_is, lemma_split_lines_last,
    lemma_split_lines_step, lower_char, match_at, matches_at, split_lines, split_lines_spec,
    starts_with_lower, to_lower, trim_spec, trim_str, views_of,
};

verus! {

/// The path of the profile file for one endpoint code.
pub open spec fn config_path_spec(code: Seq<char>) -> Seq<char> {
    "/etc/wireguard/"@ + code + ".conf"@
}

/// Maps an endpoint code to its profile path.  No input is rejected: the
/// mapping is total and deterministic.
pub fn config_path(code: &str) -> (r: String)
    ensures
        r@ == config_path_spec(code@),
{
    String::from_str("/etc/wireguard/").concat(code).concat(".conf")
}

/// Decides whether `code` is among the known profile codes.  The caller
/// supplies the store's current listing.
pub fn config_exists(codes: &Vec<String>, code: &str) -> (r: bool)
    ensures
        r == views_of(codes@).contains(code@),
{
    let mut i: usize = 0;
    while i < codes.len()
        invariant
            i <= codes@.len(),
            forall|j: int| 0 <= j < i ==> views_of(codes@)[j] != code@,
        decreases codes@.len() - i,
    {
        if eq_str(codes[i].as_str(), code) {
            proof {
                assert(views_of(codes@)[i as int] == code@);
            }
            return true;
        }
        i = i + 1;
    }
    false
}

/// A directory entry that holds a profile: a `.conf` file whose stem carries
/// the profile-code marker.
pub open spec fn is_conf_entry(e: Seq<char>) -> bool {
    &&& e.len() > 5
    &&& e.subrange(e.len() - 5, e.len() as int) == ".conf"@
    &&& crate::text::contains_seq(e.take(e.len() - 5), "-wg-"@)
}

/// The code a profile entry names: the entry without its extension.
pub open spec fn entry_code(e: Seq<char>) -> Seq<char> {
    e.take(e.len() - 5)
}

/// The codes of the profile entries among `entries`, in listing order.
pub open spec fn config_codes_spec(entries: Seq<Seq<char>>) -> Seq<Seq<char>> {
    entries.filter(|e: Seq<char>| is_conf_entry(e)).map_values(|e: Seq<char>| entry_code(e))
}

/// Filters a directory listing down to the profile codes it holds, sorted
/// lexicographically.  An empty listing gives an empty result.
pub fn list_configs(entries: &Vec<String>) -> (r: Vec<String>)
    ensures
        codes_sorted(views_of(r@)),
        views_of(r@).to_multiset() == config_codes_spec(views_of(entries@)).to_multiset(),
{
    broadcast use vstd::seq_lib::to_multiset_build;

    let mut out: Vec<String> = Vec::new();
    let mut i: usize = 0;
    proof {
        assert(views_of(entries@).take(0) =~= Seq::<Seq<char>>::empty());
        assert(config_codes_spec(views_of(entries@).take(0)) =~= Seq::<Seq<char>>::empty()) by {
            reveal(Seq::filter);
        }
        assert(views_of(out@) =~= Seq::<Seq<char>>::empty());
    }
    while i < entries.len()
        invariant
            i <= entries@.len(),
            codes_sorted(views_of(out@)),
            views_of(out@).to_multiset() == config_codes_spec(
                views_of(entries@).take(i as int),
            ).to_multiset(),
        decreases entries@.len() - i,
    {
        let ghost evs = views_of(entries@);
        let e = &entries[i];
        let n = e.as_str().unicode_len();
        proof {
            reveal_strlit(".conf");
            assert(evs[i as int] == e@);
        }
        let mut matched = false;
        if n > 5 && matches_at(e.as_str(), ".conf", n - 5) {
            let stem = e.as_str().substring_char(0, n - 5);
            proof {
                assert(stem@ =~= e@.take(e@.len() - 5));
            }
            if contains_str(stem, "-wg-") {
                matched = true;
                proof {
                    assert(is_conf_entry(e@));
                }
                let ghost before = views_of(out@);
                insert_sorted(&mut out, stem.to_owned());
                proof {
                    assert(views_of(out@).to_multiset() == before.to_multiset().insert(
                        entry_code(e@),
                    ));
                }
            }
        }
        proof {
            if !matched {
                assert(!is_conf_entry(e@)) by {
                    if e@.len() > 5 {
                        assert(e@.take(e@.len() - 5) =~= e@.subrange(0, e@.len() - 5));
                    }
                }
            }
            lemma_codes_step(evs, i as int, is_conf_entry(e@));
            if matched {
                vstd::seq_lib::to_multiset_build(
                    config_codes_spec(evs.take(i as int)),
                    entry_code(e@),
                );
            }
            assert(views_of(out@).to_multiset() == config_codes_spec(
                evs.take(i as int + 1),
            ).to_multiset());
        }
        i = i + 1;
    }
    proof {
        assert(views_of(entries@).take(entries@.len() as int) =~= views_of(entries@));
    }
    out
}

/// One step of the listing filter: extending the processed prefix by one
/// entry extends the code sequence exactly when the entry is a profile.
proof fn lemma_codes_step(evs: Seq<Seq<char>>, i: int, matched: bool)
    requires
        0 <= i < evs.len(),
        matched == is_conf_entry(evs[i]),
    ensures
        matched ==> config_codes_spec(evs.take(i + 1)) == config_codes_spec(evs.take(i)).push(
            entry_code(evs[i]),
        ),
        !matched ==> config_codes_spec(evs.take(i + 1)) == config_codes_spec(evs.take(i)),
{
    reveal(Seq::filter);
    let pred = |e: Seq<char>| is_conf_entry(e);
    let f = |e: Seq<char>| entry_code(e);
    assert(evs.take(i + 1).drop_last() =~= evs.take(i));
    assert(evs.take(i + 1).last() == evs[i]);
    if matched {
        assert(evs.take(i + 1).filter(pred) == evs.take(i).filter(pred).push(evs[i]));
        assert(evs.take(i).filter(pred).push(evs[i]).map_values(f) =~= evs.take(i).filter(
            pred,
        ).map_values(f).push(f(evs[i])));
    } else {
        assert(evs.take(i + 1).filter(pred) == evs.take(i).filter(pred));
    }
}

/// The credential shape the store accepts: exactly 44 characters, ending in
/// the padding character.
pub open spec fn key_shape_ok(k: Seq<char>) -> bool {
    k.len() == 44 && k[43] == '='
}

/// The credential a single profile line yields, if any: a case-insensitive
/// `privatekey` prefix, a separator, and a value of the accepted shape.
/// Any other shape yields nothing rather than an error.
pub open spec fn line_key(line: Seq<char>) -> Option<Seq<char>> {
    let t = trim_spec(line);
    if match_at(to_lower(t), "privatekey"@, 0) && first_idx(t, '=') < t.len() {
        let k = trim_spec(t.skip(first_idx(t, '=') as int + 1));
        if key_shape_ok(k) {
            Option::Some(k)
        } else {
            Option::None
        }
    } else {
        Option::None
    }
}

/// The credential the first matching line of a profile yields.
pub open spec fn extract_key_spec(ls: Seq<Seq<char>>) -> Option<Seq<char>>
    decreases ls.len(),
{
    if ls.len() == 0 {
        Option::None
    } else if line_key(ls[0]) is Some {
        line_key(ls[0])
    } else {
        extract_key_spec(ls.drop_first())
    }
}

/// Extracts the private credential from profile text: the first line whose
/// key matches case-insensitively and whose value has the accepted shape.
/// A value of any other shape is treated as absent, never as an error.
pub fn extract_private_key(content: &str) -> (r: Option<String>)
    ensures
        match r {
            Some(k) => extract_key_spec(split_lines_spec(content@)) == Some(k@) && key_shape_ok(
                k@,
            ),
            None => extract_key_spec(split_lines_spec(content@)) is None,
        },
{
    let lines = split_lines(content);
    let ghost lvs = split_lines_spec(content@);
    let mut i: usize = 0;
    proof {
        assert(lvs.skip(0) =~= lvs);
    }
    while i < lines.len()
        invariant
            i <= lines@.len(),
            lvs == split_lines_spec(content@),
            views_of(lines@) == lvs,
            extract_key_spec(lvs) == extract_key_spec(lvs.skip(i as int)),
        decreases lines@.len() - i,
    {
        let ghost lv = lvs[i as int];
        proof {
            assert(lines@[i as int]@ == lv);
            assert(lvs.skip(i as int)[0] == lv);
            assert(lvs.skip(i as int).drop_first() =~= lvs.skip(i as int + 1));
        }
        let t = trim_str(lines[i].as_str());
        let tn = t.unicode_len();
        if starts_with_lower(t, "privatekey") {
            match find_char(t, '=') {
                Some(p) => {
                    let rest = t.substring_char(p + 1, tn);
                    proof {
                        assert(rest@ =~= trim_spec(lv).skip(first_idx(trim_spec(lv), '=') as int
                            + 1));
                    }
                    let k = trim_str(rest);
                    let kn = k.unicode_len();
                    if kn == 44 && k.get_char(43) == '=' {
                        proof {
                            assert(k@ == trim_spec(
                                trim_spec(lv).skip(first_idx(trim_spec(lv), '=') as int + 1),
                            ));
                            assert(line_key(lv) == Some(k@));
                            assert(extract_key_spec(lvs.skip(i as int)) == Some(k@));
                        }
                        return Some(k.to_owned());
                    }
                },
                None => {},
            }
        }
        proof {
            assert(line_key(lv) is None);
        }
        i = i + 1;
    }
    proof {
        assert(lvs.skip(i as int).len() == 0);
    }
    None
}

/// The credential the first profile with a valid credential yields, over the
/// profile contents in listing order.
pub open spec fn find_key_spec(cs: Seq<Seq<char>>) -> Option<Seq<char>>
    decreases cs.len(),
{
    if cs.len() == 0 {
        Option::None
    } else if extract_key_spec(split_lines_spec(cs[0])) is Some {
        extract_key_spec(split_lines_spec(cs[0]))
    } else {
        find_key_spec(cs.drop_first())
    }
}

/// Scans the given profile contents, in listing order, for the first valid
/// private credential; used to avoid regenerating credentials across setup
/// re-runs.
pub fn find_existing_private_key(contents: &Vec<String>) -> (r: Option<String>)
    ensures
        match r {
            Some(k) => find_key_spec(views_of(contents@)) == Some(k@) && key_shape_ok(k@),
            None => find_key_spec(views_of(contents@)) is None,
        },
{
    let ghost cvs = views_of(contents@);
    let mut i: usize = 0;
    proof {
        assert(cvs.skip(0) =~= cvs);
    }
    while i < contents.len()
        invariant
            i <= contents@.len(),
            cvs == views_of(contents@),
            find_key_spec(cvs) == find_key_spec(cvs.skip(i as int)),
        decreases contents@.len() - i,
    {
        proof {
            assert(cvs.skip(i as int)[0] == contents@[i as int]@);
            assert(cvs.skip(i as int).drop_first() =~= cvs.skip(i as int + 1));
        }
        match extract_private_key(contents[i].as_str()) {
            Some(k) => {
                return Some(k);
            },
            None => {},
        }
        i = i + 1;
    }
    proof {
        assert(cvs.skip(i as int).len() == 0);
    }
    None
}

/// A rendered profile: its final path, the temporary path it is first
/// written to, and its full text.  The caller writes the temporary file with
/// owner-only permissions and atomically renames it over the final path, so
/// no reader ever observes a half-written profile.
pub struct ConfigFile {
    pub path: String,
    pub tmp_path: String,
    pub content: String,
}

/// The lines of a rendered profile.
pub open spec fn config_lines(
    key: Seq<char>,
    address: Seq<char>,
    public_key: Seq<char>,
    endpoint: Seq<char>,
) -> Seq<Seq<char>> {
    seq![
        "[Interface]"@,
        "PrivateKey = "@ + key,
        "Address = "@ + address,
        "DNS = 10.64.0.1"@,
        ""@,
        "[Peer]"@,
        "PublicKey = "@ + public_key,
        "Endpoint = "@ + endpoint,
        "AllowedIPs = 0.0.0.0/0, ::/0"@,
        ""@,
    ]
}

/// Lines joined by single newline separators.
pub open spec fn join_lines(ls: Seq<Seq<char>>) -> Seq<char>
    decreases ls.len(),
{
    if ls.len() == 0 {
        Seq::empty()
    } else if ls.len() == 1 {
        ls[0]
    } else {
        ls[0] + "\n"@ + join_lines(ls.drop_first())
    }
}

/// Whether a rendered file carries the profile for `s` under `key` and
/// `address`.
pub open spec fn config_file_ok(f: ConfigFile, s: Server, key: Seq<char>, address: Seq<char>) -> bool {
    &&& f.path@ == config_path_spec(s.code@)
    &&& f.tmp_path@ == config_path_spec(s.code@) + ".tmp"@
    &&& f.content@ == join_lines(
        config_lines(key, address, s.public_key@, endpoint_spec(s.ipv4_addr@, s.port)),
    )
}

/// Renders the fixed-template profile for one endpoint.
#[verifier::rlimit(50)]
pub fn generate_config(server: &Server, private_key: &str, address: &str) -> (r: ConfigFile)
    ensures
        config_file_ok(r, *server, private_key@, address@),
{
    let ep = server.endpoint();
    let content = String::from_str("[Interface]").concat("\n").concat("PrivateKey = ").concat(
        private_key,
    ).concat("\n").concat("Address = ").concat(address).concat("\n").concat(
        "DNS = 10.64.0.1",
    ).concat("\n").concat("\n").concat("[Peer]").concat("\n").concat("PublicKey = ").concat(
        server.public_key.as_str(),
    ).concat("\n").concat("Endpoint = ").concat(ep.as_str()).concat("\n").concat(
        "AllowedIPs = 0.0.0.0/0, ::/0",
    ).concat("\n");
    proof {
        assert(content@ =~= join_lines(
            config_lines(
                private_key@,
                address@,
                server.public_key@,
                endpoint_spec(server.ipv4_addr@, server.port),
            ),
        )) by {
            reveal_with_fuel(join_lines, 11);
            reveal_strlit("");
            assert(""@ =~= Seq::<char>::empty());
        }
    }
    let path = config_path(server.code.as_str());
    let tmp_path = path.clone().concat(".tmp");
    ConfigFile { path, tmp_path, content }
}

/// Splitting joined lines recovers them exactly when no line holds a
/// newline of its own.
proof fn lemma_split_join(ls: Seq<Seq<char>>)
    requires
        ls.len() > 0,
        forall|i: int, j: int| 0 <= i < ls.len() && 0 <= j < ls[i].len() ==> ls[i][j] != '\n',
    ensures
        split_lines_spec(join_lines(ls)) == ls,
    decreases ls.len(),
{
    reveal_strlit("\n");
    let s = join_lines(ls);
    if ls.len() == 1 {
        lemma_split_lines_last(s);
        assert(seq![s] =~= ls);
    } else {
        let l0 = ls[0];
        let rest = join_lines(ls.drop_first());
        assert(s == l0 + "\n"@ + rest);
        assert(s[l0.len() as int] == '\n');
        assert(forall|j: int| 0 <= j < l0.len() ==> s[j] == l0[j] && s[j] != '\n');
        lemma_split_lines_step(s, l0.len() as int);
        assert(s.subrange(0, l0.len() as int) =~= l0);
        assert(s.subrange(l0.len() as int + 1, s.len() as int) =~= rest);
        assert forall|i: int, j: int|
            0 <= i < ls.drop_first().len() && 0 <= j < ls.drop_first()[i].len() implies ls.drop_first()[i][j]
            != '\n' by {
            assert(ls.drop_first()[i] == ls[i + 1]);
        }
        lemma_split_join(ls.drop_first());
        assert(split_lines_spec(s) =~= seq![l0] + ls.drop_first());
        assert(seq![l0] + ls.drop_first() =~= ls);
    }
}

/// The section header line yields no credential.
proof fn lemma_interface_line_no_key()
    ensures
        line_key("[Interface]"@) is None,
{
    reveal_strlit("[Interface]");
    reveal_strlit("privatekey");
    let l = "[Interface]"@;
    assert(!is_ws(l[0]));
    lemma_first_non_ws_is(l, 0);
    assert(l.skip(0) =~= l);
    assert(!is_ws(l[10]));
    lemma_end_trim_is(l, 11);
    assert(trim_spec(l) =~= l);
    assert(!match_at(to_lower(trim_spec(l)), "privatekey"@, 0)) by {
        if match_at(to_lower(l), "privatekey"@, 0) {
            assert(to_lower(l).subrange(0, 10)[0] == lower_char('['));
            assert("privatekey"@[0] == 'p');
        }
        assert(trim_spec(l) == l);
    }
}

/// The rendered credential line yields exactly the credential it was
/// rendered with.
proof fn lemma_key_line(key: Seq<char>)
    requires
        key_shape_ok(key),
        forall|i: int| 0 <= i < key.len() ==> !is_ws(key[i]),
    ensures
        line_key("PrivateKey = "@ + key) == Some(key),
{
    reveal_strlit("PrivateKey = ");
    reveal_strlit("privatekey");
    let lit = "PrivateKey = "@;
    let l = lit + key;
    assert(lit.len() == 13);
    assert(l[0] == 'P' && !is_ws(l[0]));
    lemma_first_non_ws_is(l, 0);
    assert(l.skip(0) =~= l);
    assert(l[l.len() - 1] == key[43]);
    assert(!is_ws(l[l.len() - 1]));
    lemma_end_trim_is(l, l.len() as int);
    assert(trim_spec(l) =~= l);
    let t = trim_spec(l);
    assert(to_lower(t).subrange(0, 10) =~= "privatekey"@) by {
        assert(trim_spec(l) == l);
        assert forall|j: int| 0 <= j < 10 implies to_lower(l)[j] == "privatekey"@[j] by {
            assert(l[j] == lit[j]);
        }
    }
    assert(match_at(to_lower(t), "privatekey"@, 0));
    assert(t == l);
    assert forall|j: int| 0 <= j < 11 implies t[j] != '=' by {
        assert(l[j] == lit[j]);
    }
    assert(t[11] == lit[11] && lit[11] == '=');
    lemma_first_idx_is(t, '=', 11);
    let rest = t.skip(12);
    assert(rest[0] == l[12] && l[12] == lit[12] && lit[12] == ' ');
    assert(is_ws(rest[0]));
    assert(rest.len() == 45);
    assert(rest[1] == key[0] && !is_ws(rest[1]));
    lemma_first_non_ws_is(rest, 1);
    assert(rest.skip(1) =~= key);
    assert(!is_ws(key[43]));
    lemma_end_trim_is(key, 44);
    assert(trim_spec(rest) =~= key);
    assert(key_shape_ok(trim_spec(rest)));
}

/// Law: a profile written for a well-shaped, whitespace-free credential is
/// read back to exactly that credential.  A setup re-run that finds the
/// prior, fully written profile on disk therefore resolves its key through
/// the extractor instead of regenerating it.
pub proof fn lemma_profile_write_round_trip(
    key: Seq<char>,
    address: Seq<char>,
    public_key: Seq<char>,
    endpoint: Seq<char>,
)
    requires
        key_shape_ok(key),
        forall|i: int| 0 <= i < key.len() ==> !is_ws(key[i]),
        forall|i: int| 0 <= i < address.len() ==> address[i] != '\n',
        forall|i: int| 0 <= i < public_key.len() ==> public_key[i] != '\n',
        forall|i: int| 0 <= i < endpoint.len() ==> endpoint[i] != '\n',
    ensures
        extract_key_spec(
            split_lines_spec(join_lines(config_lines(key, address, public_key, endpoint))),
        ) == Some(key),
{
    let ls = config_lines(key, address, public_key, endpoint);
    assert forall|i: int, j: int|
        0 <= i < ls.len() && 0 <= j < ls[i].len() implies ls[i][j] != '\n' by {
        reveal_strlit("[Interface]");
        reveal_strlit("PrivateKey = ");
        reveal_strlit("Address = ");
        reveal_strlit("DNS = 10.64.0.1");
        reveal_strlit("");
        reveal_strlit("[Peer]");
        reveal_strlit("PublicKey = ");
        reveal_strlit("Endpoint = ");
        reveal_strlit("AllowedIPs = 0.0.0.0/0, ::/0");
        assert(forall|j: int| 0 <= j < key.len() ==> key[j] != '\n');
    }
    lemma_split_join(ls);
    lemma_interface_line_no_key();
    lemma_key_line(key);
    assert(extract_key_spec(ls) == Some(key)) by {
        assert(ls[0] == "[Interface]"@);
        assert(ls.drop_first()[0] == "PrivateKey = "@ + key);
        reveal_with_fuel(extract_key_spec, 3);
    }
}

/// Renders one profile per endpoint, in order.  The caller writes them in
/// order and stops at the first failure, leaving the profiles written so
/// far on disk: partial materialization is acceptable because profiles are
/// independently regenerable.
pub fn generate_all_configs(servers: &Vec<Server>, private_key: &str, address: &str) -> (r: Vec<
    ConfigFile,
>)
    ensures
        r@.len() == servers@.len(),
        forall|i: int|
            0 <= i < r@.len() ==> config_file_ok(#[trigger] r@[i], servers@[i], private_key@, address@),
{
    let mut out: Vec<ConfigFile> = Vec::new();
    let mut i: usize = 0;
    while i < servers.len()
        invariant
            i <= servers@.len(),
            out@.len() == i,
            forall|j: int|
                0 <= j < i ==> config_file_ok(#[trigger] out@[j], servers@[j], private_key@, address@),
        decreases servers@.len() - i,
    {
        let f = generate_config(&servers[i], private_key, address);
        out.push(f);
        i = i + 1;
    }
    out
}

} // verus!
