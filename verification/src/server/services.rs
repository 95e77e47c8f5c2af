use vstd::prelude::*;

use crate::models::{Category, ManualServiceRecord, Service};
use crate::order::{
    is_stable_sort_of, lemma_insert_sorted, lemma_stable_sort_same_elements, sorted_by, upper_bound,
    with_key,
};
use crate::str_map::StrMap;
use crate::text::{chars_of, lowercase, text_le, text_lt, to_lowercase};

verus! {

// ── Services from Docker labels ──────────────────────────────────────────────

/// The service, and its category, that a container's labels describe.  The
/// four labels `findit.title`, `findit.url`, `findit.description` and
/// `findit.category` are required; `findit.github_url` counts when it is not
/// empty, and `findit.icon` names an icon whose path `icons` gives.
pub open spec fn service_from_labels(
    labels: Map<Seq<char>, String>,
    icons: Map<Seq<char>, String>,
) -> Option<(String, Service)> {
    let title = "findit.title"@;
    let url = "findit.url"@;
    let description = "findit.description"@;
    let category = "findit.category"@;
    let github = "findit.github_url"@;
    let icon = "findit.icon"@;
    if labels.contains_key(title) && labels.contains_key(url) && labels.contains_key(description)
        && labels.contains_key(category) {
        Some(
            (
                labels[category],
                Service {
                    title: labels[title],
                    url: labels[url],
                    description: labels[description],
                    github_url: if labels.contains_key(github) && labels[github]@.len() > 0 {
                        Some(labels[github])
                    } else {
                        None
                    },
                    icon: if labels.contains_key(icon) && labels[icon]@.len() > 0
                        && icons.contains_key(labels[icon]@) {
                        Some(icons[labels[icon]@])
                    } else {
                        None
                    },
                },
            ),
        )
    } else {
        None
    }
}

/// The category and service that a container's labels describe, or `None`
/// when a required label is missing.
pub fn build_service_from_labels(labels: &StrMap<String>, icon_paths: &StrMap<String>) -> (r:
    Option<(String, Service)>)
    ensures
        r == service_from_labels(labels@, icon_paths@),
{
    let title = labels.get("findit.title");
    let url = labels.get("findit.url");
    let description = labels.get("findit.description");
    let category = labels.get("findit.category");
    if title.is_none() || url.is_none() || description.is_none() || category.is_none() {
        return None;
    }
    let github_url = match labels.get("findit.github_url") {
        Some(value) => {
            if value.as_str().is_empty() {
                None
            } else {
                Some(value.clone())
            }
        },
        None => None,
    };
    let icon = match labels.get("findit.icon") {
        Some(name) => {
            if name.as_str().is_empty() {
                None
            } else {
                match icon_paths.get(name.as_str()) {
                    Some(path) => Some(path.clone()),
                    None => None,
                }
            }
        },
        None => None,
    };
    Some(
        (
            category.unwrap().clone(),
            Service {
                title: title.unwrap().clone(),
                url: url.unwrap().clone(),
                description: description.unwrap().clone(),
                github_url,
                icon,
            },
        ),
    )
}

/// What a container's labels give: a service exactly when the title, URL,
/// description and category labels are all present, with those four taken
/// as they are.  The icon is the path that the icon map gives the name in a
/// non-empty `findit.icon` label, and nothing else; the GitHub link is a
/// non-empty `findit.github_url` label, and nothing else.
pub proof fn lemma_labels_describe_service(
    labels: Map<Seq<char>, String>,
    icons: Map<Seq<char>, String>,
)
    ensures
        service_from_labels(labels, icons) is Some <==> (labels.contains_key("findit.title"@)
            && labels.contains_key("findit.url"@) && labels.contains_key("findit.description"@)
            && labels.contains_key("findit.category"@)),
        service_from_labels(labels, icons) matches Some((c, s)) ==> {
            &&& c == labels["findit.category"@]
            &&& s.title == labels["findit.title"@]
            &&& s.url == labels["findit.url"@]
            &&& s.description == labels["findit.description"@]
            &&& (labels.contains_key("findit.icon"@) && labels["findit.icon"@]@.len() > 0
                && icons.contains_key(labels["findit.icon"@]@)) ==> s.icon == Some(
                icons[labels["findit.icon"@]@],
            )
            &&& s.icon matches Some(p) ==> labels.contains_key("findit.icon"@)
                && labels["findit.icon"@]@.len() > 0 && icons.contains_key(labels["findit.icon"@]@)
                && p == icons[labels["findit.icon"@]@]
            &&& (labels.contains_key("findit.github_url"@) && labels["findit.github_url"@]@.len()
                > 0) ==> s.github_url == Some(labels["findit.github_url"@])
            &&& s.github_url matches Some(g) ==> labels.contains_key("findit.github_url"@)
                && labels["findit.github_url"@]@.len() > 0 && g == labels["findit.github_url"@]
        },
{
}

/// The optional labels do not touch each other: setting the GitHub label
/// leaves the icon (and everything but the GitHub link) as it was, and
/// setting the icon label leaves the GitHub link (and everything but the
/// icon) as it was.
pub proof fn lemma_optional_labels_independent(
    labels: Map<Seq<char>, String>,
    icons: Map<Seq<char>, String>,
    value: String,
)
    ensures
        match (
            service_from_labels(labels.insert("findit.github_url"@, value), icons),
            service_from_labels(labels, icons),
        ) {
            (Some((c1, s1)), Some((c2, s2))) => c1 == c2 && s1.title == s2.title && s1.url == s2.url
                && s1.description == s2.description && s1.icon == s2.icon,
            (None, None) => true,
            _ => false,
        },
        match (
            service_from_labels(labels.insert("findit.icon"@, value), icons),
            service_from_labels(labels, icons),
        ) {
            (Some((c1, s1)), Some((c2, s2))) => c1 == c2 && s1.title == s2.title && s1.url == s2.url
                && s1.description == s2.description && s1.github_url == s2.github_url,
            (None, None) => true,
            _ => false,
        },
{
    reveal_strlit("findit.title");
    reveal_strlit("findit.url");
    reveal_strlit("findit.description");
    reveal_strlit("findit.category");
    reveal_strlit("findit.github_url");
    reveal_strlit("findit.icon");
    assert("findit.github_url"@ != "findit.icon"@) by {
        assert("findit.github_url"@[7] != "findit.icon"@[7]);
    }
    assert("findit.github_url"@ != "findit.title"@) by {
        assert("findit.github_url"@[7] != "findit.title"@[7]);
    }
    assert("findit.github_url"@ != "findit.url"@) by {
        assert("findit.github_url"@.len() != "findit.url"@.len());
    }
    assert("findit.github_url"@ != "findit.description"@) by {
        assert("findit.github_url"@[7] != "findit.description"@[7]);
    }
    assert("findit.github_url"@ != "findit.category"@) by {
        assert("findit.github_url"@[7] != "findit.category"@[7]);
    }
    assert("findit.icon"@ != "findit.title"@) by {
        assert("findit.icon"@[7] != "findit.title"@[7]);
    }
    assert("findit.icon"@ != "findit.url"@) by {
        assert("findit.icon"@[7] != "findit.url"@[7]);
    }
    assert("findit.icon"@ != "findit.description"@) by {
        assert("findit.icon"@[7] != "findit.description"@[7]);
    }
    assert("findit.icon"@ != "findit.category"@) by {
        assert("findit.icon"@[7] != "findit.category"@[7]);
    }
}

/// The services that a list of containers' labels describe, in order,
/// skipping the containers without the required labels.
pub open spec fn services_from_labels(
    containers: Seq<Map<Seq<char>, String>>,
    icons: Map<Seq<char>, String>,
) -> Seq<(String, Service)>
    decreases containers.len(),
{
    if containers.len() == 0 {
        Seq::empty()
    } else {
        let rest = services_from_labels(containers.drop_last(), icons);
        match service_from_labels(containers.last(), icons) {
            Some(e) => rest.push(e),
            None => rest,
        }
    }
}

/// The services of the discovered containers, given the labels of each.
pub fn services_from_containers(containers: &Vec<StrMap<String>>, icon_paths: &StrMap<String>) -> (r:
    Vec<(String, Service)>)
    ensures
        r@ == services_from_labels(containers@.map_values(|c: StrMap<String>| c@), icon_paths@),
{
    let ghost views = containers@.map_values(|c: StrMap<String>| c@);
    let mut r: Vec<(String, Service)> = Vec::new();
    let n = containers.len();
    for i in 0..n
        invariant
            n == containers@.len(),
            views == containers@.map_values(|c: StrMap<String>| c@),
            r@ == services_from_labels(views.take(i as int), icon_paths@),
    {
        assert(views.take(i + 1).drop_last() == views.take(i as int));
        assert(views.take(i + 1).last() == containers@[i as int]@);
        if let Some(e) = build_service_from_labels(&containers[i], icon_paths) {
            r.push(e);
        }
    }
    assert(views.take(n as int) == views);
    r
}

// ── Services added by hand ───────────────────────────────────────────────────

/// The category and service of a manually added service; an empty GitHub URL
/// counts as none.
pub open spec fn manual_entry(record: ManualServiceRecord) -> (String, Service) {
    (
        record.category,
        Service {
            title: record.title,
            url: record.url,
            description: record.description,
            github_url: match record.github_url {
                Some(g) => if g@.len() > 0 {
                    Some(g)
                } else {
                    None
                },
                None => None,
            },
            icon: record.icon_path,
        },
    )
}

/// What a manual record gives: its category, title, URL, description and
/// icon path as they are, and its GitHub link exactly when the record holds
/// a non-empty one.
pub proof fn lemma_manual_entry_keeps_fields(record: ManualServiceRecord)
    ensures
        manual_entry(record).0 == record.category,
        manual_entry(record).1.title == record.title,
        manual_entry(record).1.url == record.url,
        manual_entry(record).1.description == record.description,
        manual_entry(record).1.icon == record.icon_path,
        record.github_url matches Some(g) ==> (g@.len() > 0 ==> manual_entry(record).1.github_url
            == Some(g)),
        manual_entry(record).1.github_url is None <==> (record.github_url is None
            || record.github_url->0@.len() == 0),
        manual_entry(record).1.github_url matches Some(g) ==> record.github_url == Some(g),
{
}

/// The category and service of each manually added service, in order.
pub fn manual_service_entries(records: Vec<ManualServiceRecord>) -> (r: Vec<(String, Service)>)
    ensures
        r@ == records@.map_values(|m: ManualServiceRecord| manual_entry(m)),
{
    let ghost all = records@;
    let mut rest = records;
    let mut r: Vec<(String, Service)> = Vec::new();
    while rest.len() > 0
        invariant
            r@.len() + rest@.len() == all.len(),
            rest@ == all.subrange(r@.len() as int, all.len() as int),
            r@ == all.take(r@.len() as int).map_values(|m: ManualServiceRecord| manual_entry(m)),
        decreases rest@.len(),
    {
        let record = rest.remove(0);
        let ghost k: int = r@.len() as int;
        let github_url = match record.github_url {
            Some(g) => if g.as_str().is_empty() {
                None
            } else {
                Some(g)
            },
            None => None,
        };
        let service = Service {
            title: record.title,
            url: record.url,
            description: record.description,
            github_url,
            icon: record.icon_path,
        };
        r.push((record.category, service));
        assert(all.take(k + 1) == all.take(k).push(all[k]));
        assert(rest@ == all.subrange(k + 1, all.len() as int));
    }
    assert(all.take(all.len() as int) == all);
    r
}


// ── Grouping services into categories ───────────────────────────────────────

/// The key by which services are ordered: the lower-cased title.
pub open spec fn title_key(s: Service) -> Seq<char> {
    lowercase(s.title@)
}

/// The services of the entries whose category is `c`, in their order.
pub open spec fn services_in(entries: Seq<(String, Service)>, c: Seq<char>) -> Seq<Service>
    decreases entries.len(),
{
    if entries.len() == 0 {
        Seq::empty()
    } else if entries.last().0@ == c {
        services_in(entries.drop_last(), c).push(entries.last().1)
    } else {
        services_in(entries.drop_last(), c)
    }
}

/// `cats` are the categories of `entries`: each category once, ordered by
/// its lower-cased name, each with its services ordered by lower-cased
/// title, services with equal keys in the order of `entries`.
pub open spec fn categories_of(cats: Seq<Category>, entries: Seq<(String, Service)>) -> bool {
    &&& forall|a: int, b: int|
        0 <= a < b < cats.len() ==> text_le(
            lowercase(#[trigger] cats[a].category@),
            lowercase(#[trigger] cats[b].category@),
        )
    &&& forall|a: int, b: int|
        0 <= a < cats.len() && 0 <= b < cats.len() && a != b ==> #[trigger] cats[a].category@
            != #[trigger] cats[b].category@
    &&& forall|a: int|
        0 <= a < cats.len() ==> services_in(entries, #[trigger] cats[a].category@).len() > 0
    &&& forall|c: Seq<char>|
        #[trigger] services_in(entries, c).len() > 0 ==> exists|a: int|
            0 <= a < cats.len() && #[trigger] cats[a].category@ == c
    &&& forall|a: int|
        0 <= a < cats.len() ==> is_stable_sort_of(
            #[trigger] cats[a].services@,
            services_in(entries, cats[a].category@),
            |s: Service| title_key(s),
        )
}

proof fn lemma_services_in_contains(entries: Seq<(String, Service)>, c: Seq<char>, s: Service)
    ensures
        services_in(entries, c).contains(s) <==> exists|k: int|
            0 <= k < entries.len() && #[trigger] entries[k] == (entries[k].0, s) && entries[k].0@
                == c,
    decreases entries.len(),
{
    if entries.len() > 0 {
        let init = entries.drop_last();
        let e = entries.last();
        lemma_services_in_contains(init, c, s);
        let r = services_in(init, c);
        if services_in(entries, c).contains(s) {
            let i = choose|i: int|
                0 <= i < services_in(entries, c).len() && services_in(entries, c)[i] == s;
            if e.0@ == c && i == r.len() {
                assert(entries[entries.len() - 1] == e);
            } else {
                assert(r[i] == s);
                let k = choose|k: int|
                    0 <= k < init.len() && #[trigger] init[k] == (init[k].0, s) && init[k].0@ == c;
                assert(entries[k] == init[k]);
            }
        }
        if exists|k: int|
            0 <= k < entries.len() && #[trigger] entries[k] == (entries[k].0, s) && entries[k].0@
                == c {
            let k = choose|k: int|
                0 <= k < entries.len() && #[trigger] entries[k] == (entries[k].0, s) && entries[k].0@
                    == c;
            if k == entries.len() - 1 {
                assert(services_in(entries, c) == r.push(s));
                assert(r.push(s)[r.len() as int] == s);
            } else {
                assert(init[k] == entries[k]);
                let i = choose|i: int| 0 <= i < r.len() && r[i] == s;
                if e.0@ == c {
                    assert(r.push(e.1)[i] == s);
                }
            }
        }
    }
}

/// The service `s` is listed under the category `c` in `cats`.
pub open spec fn listed(cats: Seq<Category>, c: Seq<char>, s: Service) -> bool {
    exists|a: int| 0 <= a < cats.len() && cats[a].category@ == c && cats[a].services@.contains(s)
}

/// Some entry puts the service `s` in the category `c`.
pub open spec fn entered(entries: Seq<(String, Service)>, c: Seq<char>, s: Service) -> bool {
    exists|k: int| 0 <= k < entries.len() && entries[k].0@ == c && entries[k].1 == s
}

/// No service is lost or invented by the grouping: every entry's service is
/// listed under the entry's category, and every listed service comes from
/// an entry of the category it is listed under.
pub proof fn lemma_categories_list_every_service(
    cats: Seq<Category>,
    entries: Seq<(String, Service)>,
)
    requires
        categories_of(cats, entries),
    ensures
        forall|k: int|
            0 <= k < entries.len() ==> #[trigger] listed(cats, entries[k].0@, entries[k].1),
        forall|a: int, x: int|
            0 <= a < cats.len() && 0 <= x < cats[a].services@.len() ==> #[trigger] entered(
                entries,
                cats[a].category@,
                cats[a].services@[x],
            ),
{
    let tkey = |s: Service| title_key(s);
    assert forall|k: int| 0 <= k < entries.len() implies #[trigger] listed(
        cats,
        entries[k].0@,
        entries[k].1,
    ) by {
        let c = entries[k].0@;
        let s = entries[k].1;
        lemma_services_in_contains(entries, c, s);
        assert(entries[k] == (entries[k].0, s));
        assert(services_in(entries, c).len() > 0);
        let a = choose|a: int| 0 <= a < cats.len() && #[trigger] cats[a].category@ == c;
        lemma_stable_sort_same_elements(cats[a].services@, services_in(entries, c), tkey, s);
        assert(cats[a].services@.contains(s));
    }
    assert forall|a: int, x: int|
        0 <= a < cats.len() && 0 <= x < cats[a].services@.len() implies #[trigger] entered(
        entries,
        cats[a].category@,
        cats[a].services@[x],
    ) by {
        let c = cats[a].category@;
        let s = cats[a].services@[x];
        assert(cats[a].services@.contains(s));
        lemma_stable_sort_same_elements(cats[a].services@, services_in(entries, c), tkey, s);
        lemma_services_in_contains(entries, c, s);
        let k = choose|k: int|
            0 <= k < entries.len() && #[trigger] entries[k] == (entries[k].0, s) && entries[k].0@
                == c;
        assert(entries[k].1 == s);
    }
}

spec fn key_of_chars(v: Vec<char>) -> Seq<char> {
    v@
}

/// Categories being built: parallel lists of names, their lower-cased
/// characters, their services and the services' lower-cased titles.
struct Groups {
    names: Vec<String>,
    name_keys: Vec<Vec<char>>,
    lists: Vec<Vec<Service>>,
    list_keys: Vec<Vec<Vec<char>>>,
}

impl Groups {
    spec fn valid(&self, seen: Seq<(String, Service)>) -> bool {
        let n = self.names@.len();
        &&& self.name_keys@.len() == n
        &&& self.lists@.len() == n
        &&& self.list_keys@.len() == n
        &&& forall|a: int| 0 <= a < n ==> #[trigger] self.name_keys@[a]@ == lowercase(self.names@[a]@)
        &&& sorted_by(self.name_keys@, |v: Vec<char>| key_of_chars(v))
        &&& forall|a: int, b: int|
            0 <= a < n && 0 <= b < n && a != b ==> #[trigger] self.names@[a]@
                != #[trigger] self.names@[b]@
        &&& forall|a: int| 0 <= a < n ==> services_in(seen, #[trigger] self.names@[a]@).len() > 0
        &&& forall|c: Seq<char>|
            #[trigger] services_in(seen, c).len() > 0 ==> exists|a: int|
                0 <= a < n && #[trigger] self.names@[a]@ == c
        &&& forall|a: int|
            0 <= a < n ==> #[trigger] self.lists@[a]@.len() == self.list_keys@[a]@.len()
        &&& forall|a: int, x: int|
            0 <= a < n && 0 <= x < self.lists@[a]@.len() ==> #[trigger] self.list_keys@[a]@[x]@
                == title_key(#[trigger] self.lists@[a]@[x])
        &&& forall|a: int|
            0 <= a < n ==> is_stable_sort_of(
                #[trigger] self.lists@[a]@,
                services_in(seen, self.names@[a]@),
                |s: Service| title_key(s),
            )
    }

    fn new() -> (g: Self)
        ensures
            g.valid(Seq::empty()),
    {
        Groups { names: Vec::new(), name_keys: Vec::new(), lists: Vec::new(), list_keys: Vec::new() }
    }

    fn find(&self, c: &String) -> (r: Option<usize>)
        requires
            self.names@.len() == self.lists@.len(),
        ensures
            match r {
                Some(j) => j < self.names@.len() && self.names@[j as int]@ == c@,
                None => forall|a: int| 0 <= a < self.names@.len() ==> #[trigger] self.names@[a]@ != c@,
            },
    {
        let n = self.names.len();
        for j in 0..n
            invariant
                n == self.names@.len(),
                forall|a: int| 0 <= a < j ==> #[trigger] self.names@[a]@ != c@,
        {
            if self.names[j] == *c {
                return Some(j);
            }
        }
        None
    }

    #[verifier::rlimit(40)]
    fn add(&mut self, c: String, s: Service, Ghost(seen): Ghost<Seq<(String, Service)>>)
        requires
            old(self).valid(seen),
        ensures
            final(self).valid(seen.push((c, s))),
    {
        let ghost next = seen.push((c, s));
        let ghost tkey = |x: Service| title_key(x);
        let ghost ckey = |v: Vec<char>| key_of_chars(v);
        assert(next.drop_last() == seen);
        assert forall|q: Seq<char>| #[trigger]
            services_in(next, q) == if q == c@ {
                services_in(seen, q).push(s)
            } else {
                services_in(seen, q)
            } by {}
        let ks = chars_of(to_lowercase(s.title.as_str()).as_str());
        assert(ks@ == tkey(s));
        match self.find(&c) {
            Some(j) => {
                let ghost old_list = self.lists@[j as int]@;
                let ghost old_keys = self.list_keys@[j as int]@;
                assert(is_stable_sort_of(old_list, services_in(seen, c@), tkey));
                assert(sorted_by(old_keys, ckey)) by {
                    assert forall|x: int, y: int| 0 <= x < y < old_keys.len() implies text_le(
                        ckey(#[trigger] old_keys[x]),
                        ckey(#[trigger] old_keys[y]),
                    ) by {
                        assert(text_le(tkey(old_list[x]), tkey(old_list[y])));
                    }
                }
                let mut list = self.lists.remove(j);
                let mut keys = self.list_keys.remove(j);
                let p = upper_bound(&keys, &ks);
                proof {
                    assert forall|x: int| 0 <= x < p implies text_le(
                        tkey(#[trigger] old_list[x]),
                        tkey(s),
                    ) by {
                        assert(keys@[x]@ == tkey(old_list[x]));
                    }
                    assert forall|x: int| p <= x < old_list.len() implies text_lt(
                        tkey(s),
                        tkey(#[trigger] old_list[x]),
                    ) by {
                        assert(keys@[x]@ == tkey(old_list[x]));
                    }
                    lemma_insert_sorted(old_list, p as int, s, tkey);
                }
                list.insert(p, s);
                keys.insert(p, ks);
                let ghost new_list = list@;
                let ghost new_keys = keys@;
                proof {
                    assert forall|q: Seq<char>| #[trigger] with_key(new_list, tkey, q) == with_key(
                        services_in(next, c@),
                        tkey,
                        q,
                    ) by {
                        assert(services_in(next, c@) == services_in(seen, c@).push(s));
                        assert(services_in(seen, c@).push(s).drop_last() == services_in(seen, c@));
                        assert(with_key(old_list, tkey, q) == with_key(services_in(seen, c@), tkey, q));
                    }
                    assert forall|x: int| 0 <= x < new_list.len() implies #[trigger] new_keys[x]@
                        == tkey(#[trigger] new_list[x]) by {
                        if x < p {
                            assert(new_keys[x] == keys@[x]);
                        } else if x > p {
                            assert(old_keys[x - 1]@ == tkey(old_list[x - 1]));
                        }
                    }
                }
                let ghost lv = list;
                let ghost kv = keys;
                self.lists.insert(j, list);
                self.list_keys.insert(j, keys);
                proof {
                    let n = self.names@.len();
                    assert(self.lists@ =~= old(self).lists@.update(j as int, lv));
                    assert(self.list_keys@ =~= old(self).list_keys@.update(j as int, kv));
                    assert forall|a: int| 0 <= a < n implies is_stable_sort_of(
                        #[trigger] self.lists@[a]@,
                        services_in(next, self.names@[a]@),
                        tkey,
                    ) by {
                        if a != j {
                            assert(self.lists@[a] == old(self).lists@[a]);
                            assert(self.names@[a]@ != c@);
                        }
                    }
                    assert forall|a: int, x: int|
                        0 <= a < n && 0 <= x < self.lists@[a]@.len() implies #[trigger] self.list_keys@[a]@[x]@
                        == title_key(#[trigger] self.lists@[a]@[x]) by {
                        if a != j {
                            assert(self.lists@[a] == old(self).lists@[a]);
                            assert(self.list_keys@[a] == old(self).list_keys@[a]);
                        } else {
                            assert(new_keys[x]@ == tkey(new_list[x]));
                        }
                    }
                    assert forall|a: int| 0 <= a < n implies #[trigger] self.lists@[a]@.len()
                        == self.list_keys@[a]@.len() by {
                        if a != j {
                            assert(self.lists@[a] == old(self).lists@[a]);
                            assert(self.list_keys@[a] == old(self).list_keys@[a]);
                        }
                    }
                    assert forall|q: Seq<char>| #[trigger] services_in(next, q).len() > 0 implies exists|a: int|
                        0 <= a < n && #[trigger] self.names@[a]@ == q by {
                        if q == c@ {
                            assert(self.names@[j as int]@ == q);
                        } else {
                            assert(services_in(seen, q).len() > 0);
                        }
                    }
                }
            },
            None => {
                let kc = chars_of(to_lowercase(c.as_str()).as_str());
                let p = upper_bound(&self.name_keys, &kc);
                let ghost old_nk = self.name_keys@;
                proof {
                    assert(services_in(seen, c@).len() == 0);
                    assert(services_in(seen, c@) == Seq::<Service>::empty());
                    lemma_insert_sorted(old_nk, p as int, kc, ckey);
                }
                let mut one: Vec<Service> = Vec::new();
                one.push(s);
                let mut one_key: Vec<Vec<char>> = Vec::new();
                one_key.push(ks);
                let ghost one_v = one@;
                proof {
                    assert(one_v == services_in(seen, c@).push(s));
                    assert(services_in(next, c@) == one_v);
                }
                self.names.insert(p, c);
                self.name_keys.insert(p, kc);
                self.lists.insert(p, one);
                self.list_keys.insert(p, one_key);
                proof {
                    let n = self.names@.len();
                    let o = old(self);
                    assert forall|a: int| 0 <= a < n implies {
                        &&& #[trigger] self.name_keys@[a]@ == lowercase(self.names@[a]@)
                        &&& services_in(next, self.names@[a]@).len() > 0
                        &&& self.lists@[a]@.len() == self.list_keys@[a]@.len()
                        &&& is_stable_sort_of(
                            self.lists@[a]@,
                            services_in(next, self.names@[a]@),
                            tkey,
                        )
                        &&& forall|x: int|
                            0 <= x < self.lists@[a]@.len() ==> #[trigger] self.list_keys@[a]@[x]@
                                == title_key(#[trigger] self.lists@[a]@[x])
                    } by {
                        if a < p {
                            assert(self.names@[a] == o.names@[a]);
                            assert(self.name_keys@[a] == o.name_keys@[a]);
                            assert(self.lists@[a] == o.lists@[a]);
                            assert(self.list_keys@[a] == o.list_keys@[a]);
                            assert(o.names@[a]@ != c@);
                        } else if a > p {
                            assert(self.names@[a] == o.names@[a - 1]);
                            assert(self.name_keys@[a] == o.name_keys@[a - 1]);
                            assert(self.lists@[a] == o.lists@[a - 1]);
                            assert(self.list_keys@[a] == o.list_keys@[a - 1]);
                            assert(o.names@[a - 1]@ != c@);
                        } else {
                            assert(self.lists@[a]@ == one_v);
                        }
                    }
                    assert forall|a: int, b: int|
                        0 <= a < n && 0 <= b < n && a != b implies #[trigger] self.names@[a]@
                        != #[trigger] self.names@[b]@ by {
                        let oa = if a < p { a } else { a - 1 };
                        let ob = if b < p { b } else { b - 1 };
                        if a != p {
                            assert(self.names@[a] == o.names@[oa]);
                        }
                        if b != p {
                            assert(self.names@[b] == o.names@[ob]);
                        }
                    }
                    assert forall|q: Seq<char>| #[trigger] services_in(next, q).len() > 0 implies exists|a: int|
                        0 <= a < n && #[trigger] self.names@[a]@ == q by {
                        if q == c@ {
                            assert(self.names@[p as int]@ == q);
                        } else {
                            assert(services_in(seen, q).len() > 0);
                            let a0 = choose|a: int| 0 <= a < o.names@.len() && #[trigger] o.names@[a]@ == q;
                            if a0 < p {
                                assert(self.names@[a0] == o.names@[a0]);
                            } else {
                                assert(self.names@[a0 + 1] == o.names@[a0]);
                            }
                        }
                    }
                    assert(self.name_keys@ == old_nk.insert(p as int, kc));
                }
            },
        }
    }

    fn into_categories(self, Ghost(seen): Ghost<Seq<(String, Service)>>) -> (r: Vec<Category>)
        requires
            self.valid(seen),
        ensures
            categories_of(r@, seen),
    {
        let ghost names0 = self.names@;
        let ghost lists0 = self.lists@;
        let ghost n = names0.len();
        let Groups { mut names, name_keys, mut lists, list_keys } = self;
        let mut r: Vec<Category> = Vec::new();
        while names.len() > 0
            invariant
                names@.len() == lists@.len(),
                r@.len() + names@.len() == n,
                names0.len() == n,
                lists0.len() == n,
                names@ == names0.subrange(r@.len() as int, n as int),
                lists@ == lists0.subrange(r@.len() as int, n as int),
                forall|a: int|
                    0 <= a < r@.len() ==> #[trigger] r@[a] == (Category {
                        category: names0[a],
                        services: lists0[a],
                    }),
            decreases names@.len(),
        {
            let ghost k: int = r@.len() as int;
            let category = names.remove(0);
            let services = lists.remove(0);
            r.push(Category { category, services });
            assert(names@ == names0.subrange(k + 1, n as int));
            assert(lists@ == lists0.subrange(k + 1, n as int));
        }
        proof {
            let ghost ckey = |v: Vec<char>| key_of_chars(v);
            assert forall|a: int| 0 <= a < r@.len() implies #[trigger] r@[a].category@ == names0[a]@
                && r@[a].services@ == lists0[a]@ by {}
            assert forall|a: int, b: int| 0 <= a < b < r@.len() implies text_le(
                lowercase(#[trigger] r@[a].category@),
                lowercase(#[trigger] r@[b].category@),
            ) by {
                assert(text_le(ckey(name_keys@[a]), ckey(name_keys@[b])));
                assert(name_keys@[a]@ == lowercase(names0[a]@));
                assert(name_keys@[b]@ == lowercase(names0[b]@));
            }
            assert forall|c: Seq<char>| #[trigger] services_in(seen, c).len() > 0 implies exists|a: int|
                0 <= a < r@.len() && #[trigger] r@[a].category@ == c by {
                let a = choose|a: int| 0 <= a < n && #[trigger] names0[a]@ == c;
                assert(r@[a].category@ == c);
            }
        }
        r
    }
}

/// The categories of the Docker-discovered and the manually added services:
/// each category once, in order of its lower-cased name, each holding its
/// services in order of their lower-cased titles; services with equal
/// titles keep their order, Docker services before manual ones.
pub fn collect_categories(docker: Vec<(String, Service)>, manual: Vec<(String, Service)>) -> (r:
    Vec<Category>)
    ensures
        categories_of(r@, docker@ + manual@),
{
    let ghost all = docker@ + manual@;
    let mut rest = docker;
    let mut manual = manual;
    rest.append(&mut manual);
    assert(rest@ == all);
    let mut groups = Groups::new();
    let ghost mut seen: Seq<(String, Service)> = Seq::empty();
    while rest.len() > 0
        invariant
            groups.valid(seen),
            seen + rest@ == all,
        decreases rest@.len(),
    {
        let ghost before = rest@;
        let (c, s) = rest.remove(0);
        proof {
            assert(before == seq![(c, s)] + rest@);
        }
        groups.add(c, s, Ghost(seen));
        proof {
            assert(seen.push((c, s)) + rest@ == seen + before);
            seen = seen.push((c, s));
        }
    }
    assert(seen == all);
    groups.into_categories(Ghost(seen))
}

} // verus!
