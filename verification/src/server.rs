//! Remote endpoints and the country/city grouping used for listing them.
use vstd::prelude::*;
use vstd::string::*;

use crate::text::{dec_rep, eq_str, lemma_lex_total, lex_le, str_lex_le, u64_to_string, views_of};

verus! {

/// One remote endpoint: a stable code plus the material a profile needs.
#[derive(Debug, Clone, PartialEq)]
pub struct Server {
    pub code: String,
    pub hostname: String,
    pub public_key: String,
    pub ipv4_addr: String,
    pub port: u16,
    pub country: String,
    pub city: String,
}

/// The endpoint rendering `address:port`.
pub open spec fn endpoint_spec(addr: Seq<char>, port: u16) -> Seq<char> {
    addr + ":"@ + dec_rep(port as int)
}

impl Server {
    /// Renders the remote endpoint as `address:port`.
    pub fn endpoint(&self) -> (r: String)
        ensures
            r@ == endpoint_spec(self.ipv4_addr@, self.port),
    {
        let s = self.ipv4_addr.clone().concat(":");
        let p = u64_to_string(self.port as u64);
        s.concat(p.as_str())
    }

    /// Renders the location as `city, country`.
    pub fn location(&self) -> (r: String)
        ensures
            r@ == self.city@ + ", "@ + self.country@,
    {
        self.city.clone().concat(", ").concat(self.country.as_str())
    }
}

/// A copy of `s` whose fields equal the originals.
pub fn clone_server(s: &Server) -> (r: Server)
    ensures
        r == *s,
{
    Server {
        code: s.code.clone(),
        hostname: s.hostname.clone(),
        public_key: s.public_key.clone(),
        ipv4_addr: s.ipv4_addr.clone(),
        port: s.port,
        country: s.country.clone(),
        city: s.city.clone(),
    }
}

/// A timestamped snapshot of the known endpoint directory; never
/// authoritative, freely discarded and rebuilt.
#[derive(Debug)]
pub struct ServerCache {
    pub servers: Vec<Server>,
    pub timestamp: u64,
}

/// The endpoints of one city, sorted by code.
#[derive(Debug)]
pub struct CityGroup {
    pub name: String,
    pub servers: Vec<Server>,
}

/// The cities of one country, sorted by name.
#[derive(Debug)]
pub struct CountryGroup {
    pub name: String,
    pub cities: Vec<CityGroup>,
}

/// The known endpoints grouped country, then city, then endpoint, each level
/// sorted by name for deterministic listing.
#[derive(Debug)]
pub struct ServerTree {
    pub countries: Vec<CountryGroup>,
}

/// Strict lexicographic order.
pub open spec fn lex_lt(a: Seq<char>, b: Seq<char>) -> bool {
    lex_le(a, b) && a != b
}

/// A city group is sound: non-empty, its endpoints sorted by code, and every
/// endpoint labeled with this city and the enclosing country.
pub open spec fn city_wf(c: CityGroup, country: Seq<char>) -> bool {
    &&& c.servers@.len() > 0
    &&& forall|i: int, j: int|
        0 <= i < j < c.servers@.len() ==> lex_le(c.servers@[i].code@, c.servers@[j].code@)
    &&& forall|k: int|
        0 <= k < c.servers@.len() ==> (#[trigger] c.servers@[k]).country@ == country
            && c.servers@[k].city@ == c.name@
}

/// A country group is sound: non-empty, its cities strictly sorted by name,
/// each city sound for this country.
pub open spec fn country_wf(g: CountryGroup) -> bool {
    &&& g.cities@.len() > 0
    &&& forall|i: int, j: int|
        0 <= i < j < g.cities@.len() ==> lex_lt(g.cities@[i].name@, g.cities@[j].name@)
    &&& forall|k: int| 0 <= k < g.cities@.len() ==> city_wf(#[trigger] g.cities@[k], g.name@)
}

/// The whole tree is sound: countries strictly sorted by name, each sound.
pub open spec fn tree_wf(t: ServerTree) -> bool {
    &&& forall|i: int, j: int|
        0 <= i < j < t.countries@.len() ==> lex_lt(t.countries@[i].name@, t.countries@[j].name@)
    &&& forall|k: int| 0 <= k < t.countries@.len() ==> country_wf(#[trigger] t.countries@[k])
}

/// `s` stands somewhere in the country group.
pub open spec fn country_has(g: CountryGroup, s: Server) -> bool {
    exists|b: int, c: int|
        0 <= b < g.cities@.len() && 0 <= c < g.cities@[b].servers@.len()
            && g.cities@[b].servers@[c] == s
}

/// `s` stands somewhere in the tree.
pub open spec fn tree_has(t: ServerTree, s: Server) -> bool {
    exists|a: int| 0 <= a < t.countries@.len() && country_has(#[trigger] t.countries@[a], s)
}

/// Places `s` among a city's endpoints, keeping them sorted by code.
fn insert_into_city(c: &mut CityGroup, s: Server)
    requires
        city_wf(*old(c), s.country@),
        s.city@ == old(c).name@,
    ensures
        city_wf(*final(c), s.country@),
        final(c).name == old(c).name,
        final(c).servers@.to_multiset() == old(c).servers@.to_multiset().insert(s),
{
    broadcast use vstd::seq_lib::to_multiset_insert;

    let mut j: usize = 0;
    while j < c.servers.len() && str_lex_le(c.servers[j].code.as_str(), s.code.as_str())
        invariant
            j <= c.servers@.len(),
            c == old(c),
            forall|k: int| 0 <= k < j ==> lex_le((#[trigger] c.servers@[k]).code@, s.code@),
        decreases c.servers@.len() - j,
    {
        j = j + 1;
    }
    proof {
        if j < c.servers@.len() {
            lemma_lex_total(c.servers@[j as int].code@, s.code@);
        }
        assert forall|k: int| j <= k < c.servers@.len() implies lex_le(
            s.code@,
            (#[trigger] c.servers@[k]).code@,
        ) by {
            if k > j {
                assert(lex_le(c.servers@[j as int].code@, c.servers@[k].code@));
                crate::text::lemma_lex_trans(
                    s.code@,
                    c.servers@[j as int].code@,
                    c.servers@[k].code@,
                );
            }
        }
    }
    let ghost oldseq = c.servers@;
    c.servers.insert(j, s);
    proof {
        assert(c.servers@ == oldseq.insert(j as int, s));
        assert forall|p: int, q: int|
            0 <= p < q < c.servers@.len() implies lex_le(c.servers@[p].code@, c.servers@[q].code@) by {
            assert(forall|k: int| 0 <= k < c.servers@.len() ==> (#[trigger] c.servers@[k]) == (
            if k < j {
                oldseq[k]
            } else if k == j {
                s
            } else {
                oldseq[k - 1]
            }));
        }
    }
}

/// Places `s` among a country's cities, creating its city group if it is
/// new, keeping the cities sorted by name.
fn insert_into_country(g: &mut CountryGroup, s: Server)
    requires
        country_wf(*old(g)),
        s.country@ == old(g).name@,
    ensures
        country_wf(*final(g)),
        final(g).name == old(g).name,
        country_has(*final(g), s),
        forall|x: Server| country_has(*old(g), x) ==> country_has(*final(g), x),
        forall|x: Server| country_has(*final(g), x) ==> country_has(*old(g), x) || x == s,
{
    let mut j: usize = 0;
    let mut found = false;
    while j < g.cities.len() && !found && str_lex_le(g.cities[j].name.as_str(), s.city.as_str())
        invariant
            j <= g.cities@.len(),
            g == old(g),
            !found ==> forall|k: int|
                0 <= k < j ==> lex_le((#[trigger] g.cities@[k]).name@, s.city@)
                    && g.cities@[k].name@ != s.city@,
            found ==> j < g.cities@.len() && g.cities@[j as int].name@ == s.city@,
        decreases g.cities@.len() - j + (if found { 0int } else { 1int }),
    {
        if eq_str(g.cities[j].name.as_str(), s.city.as_str()) {
            found = true;
        } else {
            j = j + 1;
        }
    }
    if found {
        let ghost oldcities = g.cities@;
        let mut city = g.cities.remove(j);
        insert_into_city(&mut city, s);
        let ghost newcity = city;
        g.cities.insert(j, city);
        proof {
            assert(g.cities@ =~= oldcities.update(j as int, newcity));
            let js = j as int;
            assert forall|p: int, q: int|
                0 <= p < q < g.cities@.len() implies lex_lt(
                g.cities@[p].name@,
                g.cities@[q].name@,
            ) by {
                assert(g.cities@[p].name@ == oldcities[p].name@);
                assert(g.cities@[q].name@ == oldcities[q].name@);
            }
            assert(country_wf(*g));
            broadcast use vstd::multiset::group_multiset_axioms;

            oldcities[js].servers@.to_multiset_ensures();
            newcity.servers@.to_multiset_ensures();
            assert(newcity.servers@.to_multiset().count(s) > 0);
            assert(newcity.servers@.contains(s));
            let ci = choose|ci: int| 0 <= ci < newcity.servers@.len() && newcity.servers@[ci] == s;
            assert(g.cities@[js].servers@[ci] == s);
            assert(country_has(*g, s));
            assert forall|x: Server| country_has(*old(g), x) implies country_has(*g, x) by {
                let (b, cc) = choose|b: int, cc: int|
                    0 <= b < oldcities.len() && 0 <= cc < oldcities[b].servers@.len()
                        && oldcities[b].servers@[cc] == x;
                if b == js {
                    assert(oldcities[js].servers@.to_multiset().count(x) > 0);
                    assert(newcity.servers@.to_multiset().count(x) > 0);
                    assert(newcity.servers@.contains(x));
                    let c2 = choose|c2: int|
                        0 <= c2 < newcity.servers@.len() && newcity.servers@[c2] == x;
                    assert(g.cities@[js].servers@[c2] == x);
                } else {
                    assert(g.cities@[b].servers@[cc] == x);
                }
            }
            assert forall|x: Server| country_has(*g, x) implies country_has(*old(g), x) || x
                == s by {
                let (b, cc) = choose|b: int, cc: int|
                    0 <= b < g.cities@.len() && 0 <= cc < g.cities@[b].servers@.len()
                        && g.cities@[b].servers@[cc] == x;
                if b == js {
                    assert(newcity.servers@.to_multiset().count(x) > 0);
                    if x != s {
                        assert(oldcities[js].servers@.to_multiset().count(x) > 0);
                        assert(oldcities[js].servers@.contains(x));
                        let c2 = choose|c2: int|
                            0 <= c2 < oldcities[js].servers@.len() && oldcities[js].servers@[c2]
                                == x;
                        assert(oldcities[js].servers@[c2] == x);
                    }
                } else {
                    assert(oldcities[b].servers@[cc] == x);
                }
            }
        }
    } else {
        proof {
            if j < g.cities@.len() {
                lemma_lex_total(g.cities@[j as int].name@, s.city@);
            }
            assert forall|k: int| j <= k < g.cities@.len() implies lex_lt(
                s.city@,
                (#[trigger] g.cities@[k]).name@,
            ) by {
                if k > j {
                    assert(lex_lt(g.cities@[j as int].name@, g.cities@[k].name@));
                    crate::text::lemma_lex_trans(
                        s.city@,
                        g.cities@[j as int].name@,
                        g.cities@[k].name@,
                    );
                }
            }
        }
        let name = s.city.clone();
        let servers: Vec<Server> = vec![s];
        let city = CityGroup { name, servers };
        let ghost oldcities = g.cities@;
        proof {
            assert(city.servers@ =~= seq![s]);
        }
        g.cities.insert(j, city);
        proof {
            let js = j as int;
            assert(g.cities@ == oldcities.insert(js, city));
            assert(forall|k: int| 0 <= k < g.cities@.len() ==> (#[trigger] g.cities@[k]) == (
            if k < js {
                oldcities[k]
            } else if k == js {
                city
            } else {
                oldcities[k - 1]
            }));
            assert(city_wf(city, s.country@));
            assert(country_wf(*g));
            assert(g.cities@[js].servers@[0] == s);
            assert(country_has(*g, s));
            assert forall|x: Server| country_has(*old(g), x) implies country_has(*g, x) by {
                let (b, cc) = choose|b: int, cc: int|
                    0 <= b < oldcities.len() && 0 <= cc < oldcities[b].servers@.len()
                        && oldcities[b].servers@[cc] == x;
                if b < js {
                    assert(g.cities@[b].servers@[cc] == x);
                } else {
                    assert(g.cities@[b + 1].servers@[cc] == x);
                }
            }
            assert forall|x: Server| country_has(*g, x) implies country_has(*old(g), x) || x
                == s by {
                let (b, cc) = choose|b: int, cc: int|
                    0 <= b < g.cities@.len() && 0 <= cc < g.cities@[b].servers@.len()
                        && g.cities@[b].servers@[cc] == x;
                if b < js {
                    assert(oldcities[b].servers@[cc] == x);
                } else if b == js {
                    assert(x == s);
                } else {
                    assert(oldcities[b - 1].servers@[cc] == x);
                }
            }
        }
    }
}

/// Groups endpoints by country, then city, each level sorted by name and
/// endpoints sorted by code: the tree holds exactly the given endpoints.
pub fn group_servers(servers: &Vec<Server>) -> (r: ServerTree)
    ensures
        tree_wf(r),
        forall|i: int| 0 <= i < servers@.len() ==> tree_has(r, #[trigger] servers@[i]),
        forall|x: Server| tree_has(r, x) ==> servers@.contains(x),
{
    let mut tree = ServerTree { countries: Vec::new() };
    let mut i: usize = 0;
    while i < servers.len()
        invariant
            i <= servers@.len(),
            tree_wf(tree),
            forall|k: int| 0 <= k < i ==> tree_has(tree, #[trigger] servers@[k]),
            forall|x: Server| tree_has(tree, x) ==> servers@.contains(x),
        decreases servers@.len() - i,
    {
        let s = clone_server(&servers[i]);
        let ghost oldtree = tree;
        let mut j: usize = 0;
        let mut found = false;
        while j < tree.countries.len() && !found && str_lex_le(
            tree.countries[j].name.as_str(),
            s.country.as_str(),
        )
            invariant
                j <= tree.countries@.len(),
                tree == oldtree,
                !found ==> forall|k: int|
                    0 <= k < j ==> lex_le((#[trigger] tree.countries@[k]).name@, s.country@)
                        && tree.countries@[k].name@ != s.country@,
                found ==> j < tree.countries@.len() && tree.countries@[j as int].name@
                    == s.country@,
            decreases tree.countries@.len() - j + (if found { 0int } else { 1int }),
        {
            if eq_str(tree.countries[j].name.as_str(), s.country.as_str()) {
                found = true;
            } else {
                j = j + 1;
            }
        }
        if found {
            let ghost oldcountries = tree.countries@;
            let mut group = tree.countries.remove(j);
            insert_into_country(&mut group, s);
            let ghost newgroup = group;
            tree.countries.insert(j, group);
            proof {
                let js = j as int;
                assert(tree.countries@ =~= oldcountries.update(js, newgroup));
                assert forall|p: int, q: int|
                    0 <= p < q < tree.countries@.len() implies lex_lt(
                    tree.countries@[p].name@,
                    tree.countries@[q].name@,
                ) by {
                    assert(tree.countries@[p].name@ == oldcountries[p].name@);
                    assert(tree.countries@[q].name@ == oldcountries[q].name@);
                }
                assert(tree_wf(tree));
                assert(tree.countries@[js] == newgroup);
                assert(country_has(tree.countries@[js], servers@[i as int]));
                assert(tree_has(tree, servers@[i as int]));
                assert forall|x: Server| tree_has(oldtree, x) implies tree_has(tree, x) by {
                    let a = choose|a: int|
                        0 <= a < oldcountries.len() && country_has(
                            #[trigger] oldcountries[a],
                            x,
                        );
                    if a == js {
                        assert(country_has(newgroup, x));
                        assert(country_has(tree.countries@[js], x));
                    } else {
                        assert(country_has(tree.countries@[a], x));
                    }
                }
                assert forall|x: Server| tree_has(tree, x) implies servers@.contains(x) by {
                    let a = choose|a: int|
                        0 <= a < tree.countries@.len() && country_has(
                            #[trigger] tree.countries@[a],
                            x,
                        );
                    if a == js {
                        if x == servers@[i as int] {
                        } else {
                            assert(country_has(oldcountries[js], x));
                            assert(tree_has(oldtree, x));
                        }
                    } else {
                        assert(country_has(oldcountries[a], x));
                        assert(tree_has(oldtree, x));
                    }
                }
            }
        } else {
            proof {
                if j < tree.countries@.len() {
                    lemma_lex_total(tree.countries@[j as int].name@, s.country@);
                }
                assert forall|k: int| j <= k < tree.countries@.len() implies lex_lt(
                    s.country@,
                    (#[trigger] tree.countries@[k]).name@,
                ) by {
                    if k > j {
                        assert(lex_lt(tree.countries@[j as int].name@, tree.countries@[k].name@));
                        crate::text::lemma_lex_trans(
                            s.country@,
                            tree.countries@[j as int].name@,
                            tree.countries@[k].name@,
                        );
                    }
                }
            }
            let cname = s.country.clone();
            let ciname = s.city.clone();
            let ghost sv = s;
            let city_servers: Vec<Server> = vec![s];
            proof {
                assert(city_servers@ =~= seq![sv]);
            }
            let city = CityGroup { name: ciname, servers: city_servers };
            let cities: Vec<CityGroup> = vec![city];
            let ghost cityv = city;
            proof {
                assert(cities@ =~= seq![cityv]);
            }
            let group = CountryGroup { name: cname, cities };
            let ghost oldcountries = tree.countries@;
            let ghost groupv = group;
            tree.countries.insert(j, group);
            proof {
                let js = j as int;
                assert(tree.countries@ == oldcountries.insert(js, groupv));
                assert(forall|k: int|
                    0 <= k < tree.countries@.len() ==> (#[trigger] tree.countries@[k]) == (
                    if k < js {
                        oldcountries[k]
                    } else if k == js {
                        groupv
                    } else {
                        oldcountries[k - 1]
                    }));
                assert(city_wf(cityv, sv.country@));
                assert(country_wf(groupv));
                assert(tree_wf(tree));
                assert(groupv.cities@[0].servers@[0] == sv);
                assert(country_has(groupv, sv));
                assert(country_has(tree.countries@[js], servers@[i as int]));
                assert(tree_has(tree, servers@[i as int]));
                assert forall|x: Server| tree_has(oldtree, x) implies tree_has(tree, x) by {
                    let a = choose|a: int|
                        0 <= a < oldcountries.len() && country_has(
                            #[trigger] oldcountries[a],
                            x,
                        );
                    if a < js {
                        assert(country_has(tree.countries@[a], x));
                    } else {
                        assert(country_has(tree.countries@[a + 1], x));
                    }
                }
                assert forall|x: Server| tree_has(tree, x) implies servers@.contains(x) by {
                    let a = choose|a: int|
                        0 <= a < tree.countries@.len() && country_has(
                            #[trigger] tree.countries@[a],
                            x,
                        );
                    if a == js {
                        let (b, cc) = choose|b: int, cc: int|
                            0 <= b < groupv.cities@.len() && 0 <= cc
                                < groupv.cities@[b].servers@.len() && groupv.cities@[b].servers@[cc]
                                == x;
                        assert(x == sv);
                    } else if a < js {
                        assert(tree_has(oldtree, x));
                    } else {
                        assert(country_has(oldcountries[a - 1], x));
                        assert(tree_has(oldtree, x));
                    }
                }
            }
        }
        i = i + 1;
    }
    tree
}

/// The names of a country-group sequence, in order.
pub open spec fn country_names(cs: Seq<CountryGroup>) -> Seq<Seq<char>> {
    cs.map_values(|g: CountryGroup| g.name@)
}

/// The names of a city-group sequence, in order.
pub open spec fn city_names(cs: Seq<CityGroup>) -> Seq<Seq<char>> {
    cs.map_values(|c: CityGroup| c.name@)
}

/// The country names, in the tree's sorted order.
pub fn get_countries(tree: &ServerTree) -> (r: Vec<String>)
    ensures
        views_of(r@) == country_names(tree.countries@),
{
    let mut out: Vec<String> = Vec::new();
    let mut i: usize = 0;
    while i < tree.countries.len()
        invariant
            i <= tree.countries@.len(),
            views_of(out@) == country_names(tree.countries@.take(i as int)),
        decreases tree.countries@.len() - i,
    {
        let nm = tree.countries[i].name.clone();
        let ghost prev = out@;
        out.push(nm);
        proof {
            assert(views_of(out@) =~= views_of(prev).push(tree.countries@[i as int].name@));
            assert(views_of(out@) =~= country_names(tree.countries@.take(i as int + 1)));
        }
        i = i + 1;
    }
    proof {
        assert(tree.countries@.take(tree.countries@.len() as int) =~= tree.countries@);
    }
    out
}

/// The city names grouped under the first country of the given name (under a
/// sound tree, the only one); empty when the country is unknown.
pub open spec fn cities_in(cs: Seq<CountryGroup>, country: Seq<char>) -> Seq<Seq<char>>
    decreases cs.len(),
{
    if cs.len() == 0 {
        Seq::empty()
    } else if cs[0].name@ == country {
        city_names(cs[0].cities@)
    } else {
        cities_in(cs.drop_first(), country)
    }
}

/// The cities of one country, in the tree's sorted order; empty when the
/// country is unknown.
pub fn get_cities(tree: &ServerTree, country: &str) -> (r: Vec<String>)
    ensures
        views_of(r@) == cities_in(tree.countries@, country@),
{
    let ghost cs = tree.countries@;
    let mut i: usize = 0;
    proof {
        assert(cs.skip(0) =~= cs);
    }
    while i < tree.countries.len()
        invariant
            i <= tree.countries@.len(),
            cs == tree.countries@,
            cities_in(cs, country@) == cities_in(cs.skip(i as int), country@),
        decreases tree.countries@.len() - i,
    {
        proof {
            assert(cs.skip(i as int)[0] == cs[i as int]);
            assert(cs.skip(i as int).drop_first() =~= cs.skip(i as int + 1));
        }
        if eq_str(tree.countries[i].name.as_str(), country) {
            let mut out: Vec<String> = Vec::new();
            let mut b: usize = 0;
            while b < tree.countries[i].cities.len()
                invariant
                    i < tree.countries@.len(),
                    b <= tree.countries@[i as int].cities@.len(),
                    cs == tree.countries@,
                    cities_in(cs, country@) == city_names(tree.countries@[i as int].cities@),
                    views_of(out@) == city_names(
                        tree.countries@[i as int].cities@.take(b as int),
                    ),
                decreases tree.countries@[i as int].cities@.len() - b,
            {
                let nm = tree.countries[i].cities[b].name.clone();
                let ghost prev = out@;
                out.push(nm);
                proof {
                    assert(views_of(out@) =~= views_of(prev).push(
                        tree.countries@[i as int].cities@[b as int].name@,
                    ));
                    assert(views_of(out@) =~= city_names(
                        tree.countries@[i as int].cities@.take(b as int + 1),
                    ));
                }
                b = b + 1;
            }
            proof {
                let cis = tree.countries@[i as int].cities@;
                assert(cis.take(cis.len() as int) =~= cis);
            }
            return out;
        }
        i = i + 1;
    }
    proof {
        assert(cs.skip(i as int).len() == 0);
    }
    Vec::new()
}

/// The endpoints of the first city group of the given name.
pub open spec fn city_servers_in(cs: Seq<CityGroup>, city: Seq<char>) -> Seq<Server>
    decreases cs.len(),
{
    if cs.len() == 0 {
        Seq::empty()
    } else if cs[0].name@ == city {
        cs[0].servers@
    } else {
        city_servers_in(cs.drop_first(), city)
    }
}

/// The endpoints of one city of one country, by the same first-match lookup.
pub open spec fn servers_in(cs: Seq<CountryGroup>, country: Seq<char>, city: Seq<char>) -> Seq<
    Server,
>
    decreases cs.len(),
{
    if cs.len() == 0 {
        Seq::empty()
    } else if cs[0].name@ == country {
        city_servers_in(cs[0].cities@, city)
    } else {
        servers_in(cs.drop_first(), country, city)
    }
}

/// The endpoints of one city, in code order; empty when the country or city
/// is unknown.
pub fn get_servers_in_city(tree: &ServerTree, country: &str, city: &str) -> (r: Vec<Server>)
    ensures
        r@ == servers_in(tree.countries@, country@, city@),
{
    let ghost cs = tree.countries@;
    let mut i: usize = 0;
    proof {
        assert(cs.skip(0) =~= cs);
    }
    while i < tree.countries.len()
        invariant
            i <= tree.countries@.len(),
            cs == tree.countries@,
            servers_in(cs, country@, city@) == servers_in(cs.skip(i as int), country@, city@),
        decreases tree.countries@.len() - i,
    {
        proof {
            assert(cs.skip(i as int)[0] == cs[i as int]);
            assert(cs.skip(i as int).drop_first() =~= cs.skip(i as int + 1));
        }
        if eq_str(tree.countries[i].name.as_str(), country) {
            let ghost cis = tree.countries@[i as int].cities@;
            let mut b: usize = 0;
            proof {
                assert(cis.skip(0) =~= cis);
            }
            while b < tree.countries[i].cities.len()
                invariant
                    i < tree.countries@.len(),
                    b <= tree.countries@[i as int].cities@.len(),
                    cs == tree.countries@,
                    cis == tree.countries@[i as int].cities@,
                    servers_in(cs, country@, city@) == city_servers_in(
                        cis.skip(b as int),
                        city@,
                    ),
                decreases tree.countries@[i as int].cities@.len() - b,
            {
                proof {
                    assert(cis.skip(b as int)[0] == cis[b as int]);
                    assert(cis.skip(b as int).drop_first() =~= cis.skip(b as int + 1));
                }
                if eq_str(tree.countries[i].cities[b].name.as_str(), city) {
                    let mut out: Vec<Server> = Vec::new();
                    let mut k: usize = 0;
                    while k < tree.countries[i].cities[b].servers.len()
                        invariant
                            i < tree.countries@.len(),
                            b < tree.countries@[i as int].cities@.len(),
                            k <= tree.countries@[i as int].cities@[b as int].servers@.len(),
                            out@ =~= tree.countries@[i as int].cities@[b as int].servers@.take(
                                k as int,
                            ),
                        decreases tree.countries@[i as int].cities@[b as int].servers@.len() - k,
                    {
                        out.push(clone_server(&tree.countries[i].cities[b].servers[k]));
                        proof {
                            assert(out@ =~= tree.countries@[i as int].cities@[b as int].servers@.take(
                                k as int + 1,
                            ));
                        }
                        k = k + 1;
                    }
                    proof {
                        let sv = tree.countries@[i as int].cities@[b as int].servers@;
                        assert(sv.take(sv.len() as int) =~= sv);
                    }
                    return out;
                }
                b = b + 1;
            }
            proof {
                assert(cis.skip(b as int).len() == 0);
            }
            return Vec::new();
        }
        i = i + 1;
    }
    proof {
        assert(cs.skip(i as int).len() == 0);
    }
    Vec::new()
}

} // verus!
