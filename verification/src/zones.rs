//! Zone resolution: the gazetteer maps a locality's native-script name to
//! an English region label, and each region label to one of the seven
//! broadcast zones. A locality with no entry, or whose region label is not
//! listed, contributes no zone.

use vstd::prelude::*;

use crate::text::str_eq;

verus! {

/// One gazetteer entry: a locality's native-script name, its English
/// name, and its English region label.
pub struct CityEntry {
    pub name: String,
    pub name_en: String,
    pub zone_en: String,
}

/// The broadcast zone a region label belongs to, if it is listed.
pub open spec fn zone_of(z: Seq<char>) -> Option<u32> {
    if z == "Upper Galilee"@ || z == "Confrontation Line"@ || z == "North Golan"@ || z
        == "South Golan"@ || z == "Center Galilee"@ {
        Some(1u32)
    } else if z == "HaMifratz"@ || z == "HaCarmel"@ || z == "Menashe"@ {
        Some(2u32)
    } else if z == "Lower Galilee"@ || z == "Beit She'an Valley"@ || z == "HaAmakim"@ || z
        == "Wadi Ara"@ {
        Some(3u32)
    } else if z == "Sharon"@ || z == "Yarkon"@ || z == "Dan"@ {
        Some(4u32)
    } else if z == "Shomron"@ || z == "Jerusalem"@ || z == "Yehuda"@ || z == "Shfelat Yehuda"@
        || z == "Bika'a"@ {
        Some(5u32)
    } else if z == "Gaza Envelope"@ || z == "West Lachish"@ || z == "Lachish"@ || z
        == "HaShfela"@ {
        Some(6u32)
    } else if z == "West Negev"@ || z == "Center Negev"@ || z == "South Negev"@ || z
        == "Dead Sea"@ || z == "Arava"@ || z == "Eilat"@ {
        Some(7u32)
    } else {
        None
    }
}

/// Maps an English region label to its broadcast zone number.
pub fn get_zone_number(zone_en: &str) -> (r: Option<u32>)
    ensures
        r == zone_of(zone_en@),
{
    if str_eq(zone_en, "Upper Galilee") || str_eq(zone_en, "Confrontation Line") || str_eq(
        zone_en,
        "North Golan",
    ) || str_eq(zone_en, "South Golan") || str_eq(zone_en, "Center Galilee") {
        Some(1)
    } else if str_eq(zone_en, "HaMifratz") || str_eq(zone_en, "HaCarmel") || str_eq(
        zone_en,
        "Menashe",
    ) {
        Some(2)
    } else if str_eq(zone_en, "Lower Galilee") || str_eq(zone_en, "Beit She'an Valley") || str_eq(
        zone_en,
        "HaAmakim",
    ) || str_eq(zone_en, "Wadi Ara") {
        Some(3)
    } else if str_eq(zone_en, "Sharon") || str_eq(zone_en, "Yarkon") || str_eq(zone_en, "Dan") {
        Some(4)
    } else if str_eq(zone_en, "Shomron") || str_eq(zone_en, "Jerusalem") || str_eq(
        zone_en,
        "Yehuda",
    ) || str_eq(zone_en, "Shfelat Yehuda") || str_eq(zone_en, "Bika'a") {
        Some(5)
    } else if str_eq(zone_en, "Gaza Envelope") || str_eq(zone_en, "West Lachish") || str_eq(
        zone_en,
        "Lachish",
    ) || str_eq(zone_en, "HaShfela") {
        Some(6)
    } else if str_eq(zone_en, "West Negev") || str_eq(zone_en, "Center Negev") || str_eq(
        zone_en,
        "South Negev",
    ) || str_eq(zone_en, "Dead Sea") || str_eq(zone_en, "Arava") || str_eq(zone_en, "Eilat") {
        Some(7)
    } else {
        None
    }
}

/// The zone the gazetteer gives a locality name: the first entry whose
/// name matches decides, even when its region label is not listed.
pub open spec fn gaz_zone(g: Seq<CityEntry>, name: Seq<char>) -> Option<u32>
    decreases g.len(),
{
    if g.len() == 0 {
        None
    } else if g[0].name@ == name {
        zone_of(g[0].zone_en@)
    } else {
        gaz_zone(g.drop_first(), name)
    }
}

proof fn lemma_gaz_zone_step(g: Seq<CityEntry>, name: Seq<char>, i: int)
    requires
        0 <= i < g.len(),
        g[i].name@ != name,
    ensures
        gaz_zone(g.subrange(i, g.len() as int), name) == gaz_zone(
            g.subrange(i + 1, g.len() as int),
            name,
        ),
{
    let t = g.subrange(i, g.len() as int);
    assert(t[0] == g[i]);
    assert(t.drop_first() =~= g.subrange(i + 1, g.len() as int));
}

/// Looks a locality name up in the gazetteer and returns its zone.
pub fn find_zone_for_city(cities: &Vec<CityEntry>, city_name: &str) -> (r: Option<u32>)
    ensures
        r == gaz_zone(cities@, city_name@),
{
    let n = cities.len();
    let mut i: usize = 0;
    proof {
        assert(cities@.subrange(0, n as int) =~= cities@);
    }
    while i < n
        invariant
            n == cities@.len(),
            0 <= i <= n,
            gaz_zone(cities@, city_name@) == gaz_zone(
                cities@.subrange(i as int, n as int),
                city_name@,
            ),
        decreases n - i,
    {
        if str_eq(cities[i].name.as_str(), city_name) {
            proof {
                assert(cities@.subrange(i as int, n as int)[0] == cities@[i as int]);
            }
            return get_zone_number(cities[i].zone_en.as_str());
        }
        proof {
            lemma_gaz_zone_step(cities@, city_name@, i as int);
        }
        i += 1;
    }
    proof {
        assert(cities@.subrange(n as int, n as int) =~= Seq::<CityEntry>::empty());
    }
    None
}

/// A set of broadcast zones, kept as the list of its members in the
/// order they were first resolved.
pub struct ZoneSet {
    pub zones: Vec<u32>,
}

impl ZoneSet {
    /// Every member is one of the seven zones, and none repeats.
    pub open spec fn wf(&self) -> bool {
        &&& forall|i: int| 0 <= i < self.zones@.len() ==> 1 <= #[trigger] self.zones@[i] <= 7
        &&& forall|i: int, j: int|
            0 <= i < j < self.zones@.len() ==> self.zones@[i] != self.zones@[j]
    }

    /// The zones the set holds.
    pub open spec fn to_set(&self) -> Set<u32> {
        self.zones@.to_set()
    }

    pub fn new() -> (r: ZoneSet)
        ensures
            r.wf(),
            r.to_set() == Set::<u32>::empty(),
            r.zones@.len() == 0,
    {
        let r = ZoneSet { zones: Vec::new() };
        proof {
            assert(r.zones@.to_set() =~= Set::<u32>::empty());
        }
        r
    }

    pub fn contains(&self, z: u32) -> (r: bool)
        ensures
            r == self.to_set().contains(z),
    {
        let n = self.zones.len();
        let mut i: usize = 0;
        while i < n
            invariant
                n == self.zones@.len(),
                0 <= i <= n,
                forall|k: int| 0 <= k < i ==> self.zones@[k] != z,
            decreases n - i,
        {
            if self.zones[i] == z {
                proof {
                    assert(self.zones@.contains(z));
                }
                return true;
            }
            i += 1;
        }
        proof {
            assert(!self.zones@.contains(z));
        }
        false
    }

    /// Adds a zone; a zone already held is left alone.
    pub fn insert(&mut self, z: u32)
        requires
            old(self).wf(),
            1 <= z <= 7,
        ensures
            final(self).wf(),
            final(self).to_set() == old(self).to_set().insert(z),
            old(self).to_set().contains(z) ==> final(self).zones@ == old(self).zones@,
            !old(self).to_set().contains(z) ==> final(self).zones@ == old(self).zones@.push(z),
    {
        if !self.contains(z) {
            let ghost pre = self.zones@;
            self.zones.push(z);
            proof {
                assert forall|w: u32|
                    self.zones@.to_set().contains(w) <==> pre.to_set().insert(z).contains(w) by {
                    if self.zones@.contains(w) {
                        let k = choose|k: int| 0 <= k < self.zones@.len() && self.zones@[k] == w;
                        if k < pre.len() {
                            assert(pre[k] == w);
                        }
                    }
                    if pre.contains(w) {
                        let k = choose|k: int| 0 <= k < pre.len() && pre[k] == w;
                        assert(self.zones@[k] == w);
                    }
                    if w == z {
                        assert(self.zones@[pre.len() as int] == z);
                    }
                }
                assert(self.zones@.to_set() =~= pre.to_set().insert(z));
            }
        } else {
            proof {
                assert(old(self).zones@.to_set() =~= old(self).zones@.to_set().insert(z));
            }
        }
    }

    pub fn len(&self) -> (r: usize)
        ensures
            r == self.zones@.len(),
    {
        self.zones.len()
    }
}

/// The zones in the order resolution first meets them: each locality's
/// zone, if the gazetteer yields one and it is not already listed.
pub open spec fn zone_list_spec(locs: Seq<Seq<char>>, g: Seq<CityEntry>) -> Seq<u32>
    decreases locs.len(),
{
    if locs.len() == 0 {
        Seq::empty()
    } else {
        let pre = zone_list_spec(locs.drop_last(), g);
        match gaz_zone(g, locs.last()) {
            Some(z) => if pre.contains(z) {
                pre
            } else {
                pre.push(z)
            },
            None => pre,
        }
    }
}

/// The zones that resolving `locs` against gazetteer `g` yields: every
/// zone some locality's gazetteer entry names.
pub open spec fn zones_spec(locs: Seq<Seq<char>>, g: Seq<CityEntry>) -> Set<u32> {
    Set::new(|z: u32| exists|i: int| 0 <= i < locs.len() && gaz_zone(g, locs[i]) == Some(z))
}

/// Resolves a canonical alert's localities to the set of affected zones.
/// Localities the gazetteer does not know are skipped.
pub fn resolve(localities: &Vec<String>, gazetteer: &Vec<CityEntry>) -> (r: ZoneSet)
    ensures
        r.wf(),
        r.to_set() == zones_spec(localities.deep_view(), gazetteer@),
        r.zones@ == zone_list_spec(localities.deep_view(), gazetteer@),
{
    let n = localities.len();
    let mut r = ZoneSet::new();
    proof {
        assert(r.to_set() =~= zones_spec(localities.deep_view().subrange(0, 0), gazetteer@));
        assert(localities.deep_view().subrange(0, 0) =~= Seq::<Seq<char>>::empty());
    }
    let mut i: usize = 0;
    while i < n
        invariant
            n == localities@.len(),
            0 <= i <= n,
            r.wf(),
            r.to_set() == zones_spec(localities.deep_view().subrange(0, i as int), gazetteer@),
            r.zones@ == zone_list_spec(localities.deep_view().subrange(0, i as int), gazetteer@),
        decreases n - i,
    {
        let ghost locs = localities.deep_view();
        let ghost pre = locs.subrange(0, i as int);
        let ghost post = locs.subrange(0, i + 1);
        proof {
            assert(post.drop_last() =~= pre);
            assert(post.last() == locs[i as int]);
        }
        match find_zone_for_city(gazetteer, localities[i].as_str()) {
            Some(z) => {
                proof {
                    lemma_zone_of_range(gazetteer@, localities@[i as int].view());
                }
                r.insert(z);
                proof {
                    assert forall|w: u32| r.to_set().contains(w) <==> zones_spec(
                        post,
                        gazetteer@,
                    ).contains(w) by {
                        if zones_spec(post, gazetteer@).contains(w) {
                            let k = choose|k: int|
                                0 <= k < post.len() && gaz_zone(gazetteer@, post[k]) == Some(w);
                            if k < i {
                                assert(pre[k] == post[k]);
                                assert(zones_spec(pre, gazetteer@).contains(w));
                            } else {
                                assert(post[k] == locs[i as int]);
                            }
                        }
                        if r.to_set().contains(w) {
                            if w == z {
                                assert(0 <= i < post.len() && gaz_zone(gazetteer@, post[i as int])
                                    == Some(w));
                            } else {
                                let k = choose|k: int|
                                    0 <= k < pre.len() && gaz_zone(gazetteer@, pre[k]) == Some(w);
                                assert(post[k] == pre[k]);
                            }
                        }
                    }
                    assert(r.to_set() =~= zones_spec(post, gazetteer@));
                }
            },
            None => {
                proof {
                    assert forall|w: u32| zones_spec(post, gazetteer@).contains(w) <==> zones_spec(
                        pre,
                        gazetteer@,
                    ).contains(w) by {
                        if zones_spec(post, gazetteer@).contains(w) {
                            let k = choose|k: int|
                                0 <= k < post.len() && gaz_zone(gazetteer@, post[k]) == Some(w);
                            if k < i {
                                assert(pre[k] == post[k]);
                            } else {
                                assert(post[k] == locs[i as int]);
                            }
                        }
                        if zones_spec(pre, gazetteer@).contains(w) {
                            let k = choose|k: int|
                                0 <= k < pre.len() && gaz_zone(gazetteer@, pre[k]) == Some(w);
                            assert(post[k] == pre[k]);
                        }
                    }
                    assert(r.to_set() =~= zones_spec(post, gazetteer@));
                }
            },
        }
        i += 1;
    }
    proof {
        assert(localities.deep_view().subrange(0, n as int) =~= localities.deep_view());
    }
    r
}

/// A zone the gazetteer yields is one of the seven.
pub proof fn lemma_zone_of_range(g: Seq<CityEntry>, name: Seq<char>)
    ensures
        gaz_zone(g, name) matches Some(z) ==> 1 <= z <= 7,
    decreases g.len(),
{
    if g.len() > 0 && g[0].name@ != name {
        lemma_zone_of_range(g.drop_first(), name);
    }
}

} // verus!
