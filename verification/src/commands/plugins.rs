//! Plugins that are installed: what their manifests say of them.

use vstd::prelude::*;

use crate::order;
use crate::paths;
use crate::text;

verus! {

// ---- TOML ------------------------------------------------------------------------------------

/// The keys of a document, by the `toml` crate. Nothing where the text is no
/// document.
pub uninterp spec fn toml_keys(body: Seq<char>) -> Option<Seq<Seq<char>>>;

/// The text under a key of a document, by the `toml` crate. Nothing where there
/// is none.
pub uninterp spec fn toml_text(body: Seq<char>, key: Seq<char>) -> Option<Seq<char>>;

/// The flag under a key of a document, by the `toml` crate. Nothing where there
/// is none.
pub uninterp spec fn toml_flag(body: Seq<char>, key: Seq<char>) -> Option<bool>;

/// The keys of a table of a document, by the `toml` crate. Nothing where there is
/// no such table.
pub uninterp spec fn toml_table(body: Seq<char>, table: Seq<char>) -> Option<Seq<Seq<char>>>;

/// The text under a key of a table, by the `toml` crate. Nothing where there is
/// none.
pub uninterp spec fn toml_table_text(
    body: Seq<char>,
    table: Seq<char>,
    key: Seq<char>,
) -> Option<Seq<char>>;

/// The texts in the list under a key of a table, by the `toml` crate. Nothing
/// where there is no list, or where it holds anything but texts.
pub uninterp spec fn toml_table_texts(
    body: Seq<char>,
    table: Seq<char>,
    key: Seq<char>,
) -> Option<Seq<Seq<char>>>;

/// The document with a flag under a key, by the `toml` crate. Nothing where the
/// text is no document.
pub uninterp spec fn toml_with_flag(body: Seq<char>, key: Seq<char>, flag: bool) -> Option<
    Seq<char>,
>;

/// The views of the texts of a list, if there is one.
pub open spec fn opt_texts(r: Option<Vec<String>>) -> Option<Seq<Seq<char>>> {
    match r {
        Some(v) => Some(text::texts(v@)),
        None => None,
    }
}

/// `toml::from_str` and `toml::Table::keys`: the keys of the document, a function
/// of the text alone.
#[verifier::external_body]
fn read_keys(body: &str) -> (r: Option<Vec<String>>)
    ensures
        opt_texts(r) == toml_keys(body@),
{
    let doc: toml::Table = toml::from_str(body).ok()?;
    Some(doc.keys().cloned().collect())
}

/// `toml::from_str`, `toml::Table::get` and `toml::Value::as_str`: the text under
/// the key, a function of the two texts alone.
#[verifier::external_body]
fn read_text(body: &str, key: &str) -> (r: Option<String>)
    ensures
        text::opt_owned(r) == toml_text(body@, key@),
{
    let doc: toml::Table = toml::from_str(body).ok()?;
    Some(doc.get(key)?.as_str()?.to_string())
}

/// `toml::from_str`, `toml::Table::get` and `toml::Value::as_bool`: the flag under
/// the key, a function of the two texts alone.
#[verifier::external_body]
fn read_flag(body: &str, key: &str) -> (r: Option<bool>)
    ensures
        r == toml_flag(body@, key@),
{
    let doc: toml::Table = toml::from_str(body).ok()?;
    doc.get(key)?.as_bool()
}

/// `toml::Value::as_table` and `toml::Table::keys` on a part of a document: the
/// keys of the table, a function of the two texts alone.
#[verifier::external_body]
fn read_table(body: &str, table: &str) -> (r: Option<Vec<String>>)
    ensures
        opt_texts(r) == toml_table(body@, table@),
{
    let doc: toml::Table = toml::from_str(body).ok()?;
    Some(doc.get(table)?.as_table()?.keys().cloned().collect())
}

/// `toml::Value::as_str` on a part of a table: the text under the key, a function
/// of the three texts alone.
#[verifier::external_body]
fn read_table_text(body: &str, table: &str, key: &str) -> (r: Option<String>)
    ensures
        text::opt_owned(r) == toml_table_text(body@, table@, key@),
{
    let doc: toml::Table = toml::from_str(body).ok()?;
    Some(doc.get(table)?.as_table()?.get(key)?.as_str()?.to_string())
}

/// `toml::Value::as_array` and `toml::Value::as_str` on a part of a table: the
/// texts of the list under the key, a function of the three texts alone.
#[verifier::external_body]
fn read_table_texts(body: &str, table: &str, key: &str) -> (r: Option<Vec<String>>)
    ensures
        opt_texts(r) == toml_table_texts(body@, table@, key@),
{
    let doc: toml::Table = toml::from_str(body).ok()?;
    let list = doc.get(table)?.as_table()?.get(key)?.as_array()?;
    list.iter().map(|v| v.as_str().map(String::from)).collect()
}

/// `toml::Table::insert` and `toml::to_string`: the document with the flag under
/// the key, a function of the document, the key and the flag alone. What is read
/// of the new document is left unsaid: tables that are nested too deeply come out
/// in a form that is not read again.
#[verifier::external_body]
fn write_flag(body: &str, key: &str, flag: bool) -> (r: Option<String>)
    ensures
        text::opt_owned(r) == toml_with_flag(body@, key@, flag),
{
    let mut doc: toml::Table = toml::from_str(body).ok()?;
    doc.insert(key.to_string(), toml::Value::Boolean(flag));
    toml::to_string(&doc).ok()
}

// ---- capabilities ----------------------------------------------------------------------------

/// What a plugin may do in one area.
#[derive(Debug)]
pub struct Capability {
    pub area: String,
    pub grants: Vec<String>,
}

/// The label of a grant.
pub open spec fn label(area: Seq<char>, grant: Seq<char>) -> Seq<char> {
    area + ":"@ + grant
}

/// The labels of the grants in an area.
pub open spec fn area_labels(area: Seq<char>, grants: Seq<Seq<char>>) -> Seq<Seq<char>> {
    Seq::new(grants.len(), |i: int| label(area, grants[i]))
}

/// The labels of all grants, area by area.
pub open spec fn labels(caps: Seq<(Seq<char>, Seq<Seq<char>>)>) -> Seq<Seq<char>>
    decreases caps.len(),
{
    if caps.len() == 0 {
        Seq::empty()
    } else {
        labels(caps.drop_last()) + area_labels(caps.last().0, caps.last().1)
    }
}

/// The areas and their grants.
pub open spec fn grants_of(caps: Seq<Capability>) -> Seq<(Seq<char>, Seq<Seq<char>>)> {
    Seq::new(caps.len(), |i: int| (caps[i].area@, text::texts(caps[i].grants@)))
}

/// `r` holds the texts in the order of the alphabet.
pub open spec fn is_sorted_of(all: Seq<Seq<char>>, r: Seq<Seq<char>>) -> bool {
    exists|p: Seq<usize>|
        #[trigger] order::is_alphabetic(all, p) && r == Seq::new(
            p.len(),
            |i: int| all[p[i] as int],
        )
}

fn sort_texts(all: &[String]) -> (r: Vec<String>)
    ensures
        is_sorted_of(text::texts(all@), text::texts(r@)),
{
    let p = order::alphabetically(all);
    let ghost t = text::texts(all@);
    let n: usize = p.len();
    let mut out: Vec<String> = Vec::new();
    for i in 0..n
        invariant
            n == p@.len(),
            t == text::texts(all@),
            order::is_alphabetic(t, p@),
            out@.len() == i,
            forall|k: int| 0 <= k < i ==> (#[trigger] out@[k])@ == t[p@[k] as int],
    {
        assert(p@[i as int] < t.len());
        out.push(all[p[i]].clone());
    }
    assert(text::texts(out@) =~= Seq::new(p@.len(), |i: int| t[p@[i] as int]));
    out
}

/// The labels of what a plugin may do, in the order of the alphabet.
pub fn flatten_capabilities(caps: &[Capability]) -> (r: Vec<String>)
    ensures
        is_sorted_of(labels(grants_of(caps@)), text::texts(r@)),
{
    let n: usize = caps.len();
    let ghost g = grants_of(caps@);
    let mut all: Vec<String> = Vec::new();
    assert(g.take(0) =~= Seq::empty());
    assert(text::texts(all@) =~= Seq::<Seq<char>>::empty());
    for i in 0..n
        invariant
            n == caps@.len(),
            g == grants_of(caps@),
            text::texts(all@) == labels(g.take(i as int)),
    {
        let ghost before = labels(g.take(i as int));
        let ghost area = caps@[i as int].area@;
        let ghost grants = text::texts(caps@[i as int].grants@);
        let m: usize = caps[i].grants.len();
        assert(before + area_labels(area, grants.take(0)) =~= before);
        for j in 0..m
            invariant
                i < caps@.len(),
                m == caps@[i as int].grants@.len(),
                area == caps@[i as int].area@,
                grants == text::texts(caps@[i as int].grants@),
                text::texts(all@) == before + area_labels(area, grants.take(j as int)),
        {
            let mut s = caps[i].area.clone();
            s.append(":");
            s.append(caps[i].grants[j].as_str());
            assert(s@ == label(area, grants[j as int]));
            let ghost prior = text::texts(all@);
            all.push(s);
            assert(text::texts(all@) =~= prior.push(s@));
            assert(prior.push(s@) =~= before + area_labels(area, grants.take(j + 1)));
        }
        assert(grants.take(m as int) =~= grants);
        assert(g.take(i + 1).drop_last() =~= g.take(i as int));
        assert(g.take(i + 1).last() == (area, grants));
    }
    assert(g.take(n as int) =~= g);
    sort_texts(&all)
}

// ---- manifests -------------------------------------------------------------------------------

/// What the list of plugins shows of a manifest.
#[derive(Debug)]
pub struct PluginListing {
    pub name: String,
    pub version: String,
    pub description: String,
    pub enabled: bool,
    pub capabilities: Vec<String>,
}

/// A field that may be missing: the value for that, or what stands there, or
/// nothing where that is of another type.
pub open spec fn field_or<T>(present: bool, value: Option<T>, missing: T) -> Option<T> {
    if present {
        value
    } else {
        Some(missing)
    }
}

/// Whether a manifest says that the plugin is enabled. It is where nothing is said.
pub open spec fn enabled_in(body: Seq<char>) -> Option<bool> {
    match toml_keys(body) {
        None => None,
        Some(keys) => field_or(
            keys.contains("enabled"@),
            toml_flag(body, "enabled"@),
            true,
        ),
    }
}

/// A text of the manifest itself, empty where it is missing.
pub open spec fn flat_text(body: Seq<char>, key: Seq<char>) -> Option<Seq<char>> {
    match toml_keys(body) {
        None => None,
        Some(keys) => field_or(keys.contains(key), toml_text(body, key), Seq::empty()),
    }
}

/// A text of a manifest's `plugin` table, empty where it is missing.
pub open spec fn plugin_text(body: Seq<char>, key: Seq<char>) -> Option<Seq<char>> {
    match toml_table(body, "plugin"@) {
        None => None,
        Some(keys) => field_or(
            keys.contains(key),
            toml_table_text(body, "plugin"@, key),
            Seq::empty(),
        ),
    }
}

/// What the areas of a manifest grant. Nothing where one is no list of texts.
pub open spec fn granted(body: Seq<char>, areas: Seq<Seq<char>>) -> Option<
    Seq<(Seq<char>, Seq<Seq<char>>)>,
>
    decreases areas.len(),
{
    if areas.len() == 0 {
        Some(Seq::empty())
    } else {
        match granted(body, areas.drop_last()) {
            None => None,
            Some(rest) => match toml_table_texts(body, "capabilities"@, areas.last()) {
                None => None,
                Some(g) => Some(rest.push((areas.last(), g))),
            },
        }
    }
}

/// What a manifest grants. Nothing where its grants are of another shape.
pub open spec fn capabilities_in(body: Seq<char>) -> Option<Seq<(Seq<char>, Seq<Seq<char>>)>> {
    match toml_keys(body) {
        None => None,
        Some(keys) => if !keys.contains("capabilities"@) {
            Some(Seq::empty())
        } else {
            match toml_table(body, "capabilities"@) {
                None => None,
                Some(areas) => granted(body, areas),
            }
        },
    }
}

/// The manifest has its fields in sections.
pub open spec fn is_sectioned(body: Seq<char>) -> bool {
    &&& toml_table_text(body, "plugin"@, "name"@) is Some
    &&& toml_table_text(body, "plugin"@, "version"@) is Some
    &&& plugin_text(body, "description"@) is Some
    &&& enabled_in(body) is Some
    &&& capabilities_in(body) is Some
}

/// The manifest has its fields at the top.
pub open spec fn is_flat(body: Seq<char>) -> bool {
    &&& toml_text(body, "name"@) is Some
    &&& flat_text(body, "version"@) is Some
    &&& flat_text(body, "description"@) is Some
    &&& enabled_in(body) is Some
}

/// The listing shows what the manifest says. Fields in sections come before
/// fields at the top.
pub open spec fn shows(body: Seq<char>, l: PluginListing) -> bool {
    &&& enabled_in(body) == Some(l.enabled)
    &&& if is_sectioned(body) {
        &&& toml_table_text(body, "plugin"@, "name"@) == Some(l.name@)
        &&& toml_table_text(body, "plugin"@, "version"@) == Some(l.version@)
        &&& plugin_text(body, "description"@) == Some(l.description@)
        &&& is_sorted_of(labels(capabilities_in(body)->0), text::texts(l.capabilities@))
    } else {
        &&& toml_text(body, "name"@) == Some(l.name@)
        &&& flat_text(body, "version"@) == Some(l.version@)
        &&& flat_text(body, "description"@) == Some(l.description@)
        &&& l.capabilities@.len() == 0
    }
}

fn read_enabled(body: &str) -> (r: Option<bool>)
    ensures
        r == enabled_in(body@),
{
    match read_keys(body) {
        None => None,
        Some(keys) => if text::list_has(&keys, "enabled") {
            read_flag(body, "enabled")
        } else {
            Some(true)
        },
    }
}

fn read_flat_text(body: &str, key: &str) -> (r: Option<String>)
    ensures
        text::opt_owned(r) == flat_text(body@, key@),
{
    match read_keys(body) {
        None => None,
        Some(keys) => if text::list_has(&keys, key) {
            read_text(body, key)
        } else {
            let s = String::new();
            assert(s@ =~= Seq::<char>::empty());
            Some(s)
        },
    }
}

fn read_plugin_text(body: &str, key: &str) -> (r: Option<String>)
    ensures
        text::opt_owned(r) == plugin_text(body@, key@),
{
    match read_table(body, "plugin") {
        None => None,
        Some(keys) => if text::list_has(&keys, key) {
            read_table_text(body, "plugin", key)
        } else {
            let s = String::new();
            assert(s@ =~= Seq::<char>::empty());
            Some(s)
        },
    }
}

/// The views of the areas and their grants, if there are any.
pub open spec fn opt_grants(r: Option<Vec<Capability>>) -> Option<
    Seq<(Seq<char>, Seq<Seq<char>>)>,
> {
    match r {
        Some(v) => Some(grants_of(v@)),
        None => None,
    }
}

proof fn lemma_not_granted(body: Seq<char>, areas: Seq<Seq<char>>, i: int)
    requires
        0 <= i <= areas.len(),
        granted(body, areas.take(i)) is None,
    ensures
        granted(body, areas) is None,
    decreases areas.len() - i,
{
    if i < areas.len() {
        assert(areas.take(i + 1).drop_last() =~= areas.take(i));
        lemma_not_granted(body, areas, i + 1);
    } else {
        assert(areas.take(i) =~= areas);
    }
}

fn read_granted(body: &str, areas: Vec<String>) -> (r: Option<Vec<Capability>>)
    ensures
        opt_grants(r) == granted(body@, text::texts(areas@)),
{
    let n: usize = areas.len();
    let ghost a = text::texts(areas@);
    let mut out: Vec<Capability> = Vec::new();
    assert(a.take(0) =~= Seq::<Seq<char>>::empty());
    assert(grants_of(out@) =~= Seq::empty());
    for i in 0..n
        invariant
            n == areas@.len(),
            a == text::texts(areas@),
            granted(body@, a.take(i as int)) == Some(grants_of(out@)),
    {
        assert(a.take(i + 1).drop_last() =~= a.take(i as int));
        assert(a.take(i + 1).last() == areas@[i as int]@);
        match read_table_texts(body, "capabilities", areas[i].as_str()) {
            None => {
                proof {
                    lemma_not_granted(body@, a, i + 1);
                }
                return None;
            },
            Some(grants) => {
                let ghost before = grants_of(out@);
                let area = areas[i].clone();
                out.push(Capability { area, grants });
                assert(grants_of(out@) =~= before.push((area@, text::texts(grants@))));
            },
        }
    }
    assert(a.take(n as int) =~= a);
    Some(out)
}

fn read_capabilities(body: &str) -> (r: Option<Vec<Capability>>)
    ensures
        opt_grants(r) == capabilities_in(body@),
{
    match read_keys(body) {
        None => None,
        Some(keys) => if !text::list_has(&keys, "capabilities") {
            let v: Vec<Capability> = Vec::new();
            assert(grants_of(v@) =~= Seq::empty());
            Some(v)
        } else {
            match read_table(body, "capabilities") {
                None => None,
                Some(areas) => read_granted(body, areas),
            }
        },
    }
}

fn read_sectioned(body: &str) -> (r: Option<PluginListing>)
    ensures
        (r is Some) == is_sectioned(body@),
        r matches Some(l) ==> shows(body@, l),
{
    let name = read_table_text(body, "plugin", "name");
    let version = read_table_text(body, "plugin", "version");
    let description = read_plugin_text(body, "description");
    let enabled = read_enabled(body);
    let caps = read_capabilities(body);
    match (name, version, description, enabled, caps) {
        (Some(name), Some(version), Some(description), Some(enabled), Some(caps)) => {
            let capabilities = flatten_capabilities(&caps);
            Some(PluginListing { name, version, description, enabled, capabilities })
        },
        _ => None,
    }
}

fn read_flat(body: &str) -> (r: Option<PluginListing>)
    requires
        !is_sectioned(body@),
    ensures
        (r is Some) == is_flat(body@),
        r matches Some(l) ==> shows(body@, l),
{
    let name = read_text(body, "name");
    let version = read_flat_text(body, "version");
    let description = read_flat_text(body, "description");
    let enabled = read_enabled(body);
    match (name, version, description, enabled) {
        (Some(name), Some(version), Some(description), Some(enabled)) => {
            let capabilities: Vec<String> = Vec::new();
            Some(PluginListing { name, version, description, enabled, capabilities })
        },
        _ => None,
    }
}

/// What the list of plugins shows of a manifest. Its fields stand in sections, or
/// else at the top; any other manifest shows nothing.
pub fn read_plugin_listing(body: &str) -> (r: Option<PluginListing>)
    ensures
        (r is Some) == (is_sectioned(body@) || is_flat(body@)),
        r matches Some(l) ==> shows(body@, l),
{
    match read_sectioned(body) {
        Some(l) => Some(l),
        None => read_flat(body),
    }
}

// ---- the list --------------------------------------------------------------------------------

/// A manifest that was found, with the name of its directory.
#[derive(Debug)]
pub struct FoundManifest {
    pub id: String,
    pub body: String,
}

/// A plugin that is installed.
#[derive(Debug)]
pub struct InstalledPlugin {
    pub id: String,
    pub name: String,
    pub version: String,
    pub description: String,
    pub enabled: bool,
    pub capabilities: Vec<String>,
}

/// The plugin is the one whose manifest was found.
pub open spec fn is_plugin_of(p: InstalledPlugin, f: FoundManifest) -> bool {
    p.id@ == f.id@ && shows(
        f.body@,
        PluginListing {
            name: p.name,
            version: p.version,
            description: p.description,
            enabled: p.enabled,
            capabilities: p.capabilities,
        },
    )
}

/// The manifest can be read.
pub open spec fn is_manifest(body: Seq<char>) -> bool {
    is_sectioned(body) || is_flat(body)
}

/// The places of the manifests that can be read.
pub open spec fn readable(found: Seq<FoundManifest>) -> Seq<int>
    decreases found.len(),
{
    if found.len() == 0 {
        Seq::empty()
    } else if is_manifest(found.last().body@) {
        readable(found.drop_last()).push(found.len() - 1)
    } else {
        readable(found.drop_last())
    }
}

/// The name of a plugin.
pub open spec fn name_in(body: Seq<char>) -> Seq<char> {
    if is_sectioned(body) {
        toml_table_text(body, "plugin"@, "name"@)->0
    } else {
        toml_text(body, "name"@)->0
    }
}

/// The names of the plugins whose manifests are at the places.
pub open spec fn names_at(found: Seq<FoundManifest>, places: Seq<int>) -> Seq<Seq<char>> {
    Seq::new(places.len(), |i: int| name_in(found[places[i]].body@))
}

/// The plugin is the one whose manifest is at the place.
pub open spec fn is_plugin_at(p: InstalledPlugin, found: Seq<FoundManifest>, place: int) -> bool {
    0 <= place < found.len() && is_plugin_of(p, found[place])
}

/// The plugins are those of the manifests at the places, in their order.
pub open spec fn are_plugins_of(
    v: Seq<InstalledPlugin>,
    found: Seq<FoundManifest>,
    places: Seq<int>,
) -> bool {
    &&& v.len() == places.len()
    &&& forall|i: int|
        0 <= i < v.len() ==> is_plugin_at(#[trigger] v[i], found, places[i])
}

/// `r` is the list of plugins: those whose manifests can be read, in the order of
/// their names; of the same name, the one that was found first comes first.
pub open spec fn is_list_of(found: Seq<FoundManifest>, r: Seq<InstalledPlugin>) -> bool {
    let all = readable(found);
    exists|p: Seq<usize>|
        #[trigger] order::is_alphabetic(names_at(found, all), p) && are_plugins_of(
            r,
            found,
            Seq::new(p.len(), |i: int| all[p[i] as int]),
        )
}

fn copy_plugin(p: &InstalledPlugin) -> (r: InstalledPlugin)
    ensures
        forall|f: FoundManifest| #[trigger] is_plugin_of(*p, f) ==> is_plugin_of(r, f),
{
    let n: usize = p.capabilities.len();
    let mut capabilities: Vec<String> = Vec::new();
    for i in 0..n
        invariant
            n == p.capabilities@.len(),
            capabilities@.len() == i,
            forall|k: int|
                0 <= k < i ==> (#[trigger] capabilities@[k])@ == p.capabilities@[k]@,
    {
        capabilities.push(p.capabilities[i].clone());
    }
    assert(text::texts(capabilities@) =~= text::texts(p.capabilities@));
    InstalledPlugin {
        id: p.id.clone(),
        name: p.name.clone(),
        version: p.version.clone(),
        description: p.description.clone(),
        enabled: p.enabled,
        capabilities,
    }
}

/// The plugins that are installed, in the order of their names. A manifest that
/// cannot be read is passed over.
pub fn list_installed_plugins(found: &[FoundManifest]) -> (r: Vec<InstalledPlugin>)
    ensures
        is_list_of(found@, r@),
{
    let n: usize = found.len();
    let mut all: Vec<InstalledPlugin> = Vec::new();
    let mut names: Vec<String> = Vec::new();
    assert(found@.take(0) =~= Seq::<FoundManifest>::empty());
    assert(text::texts(names@) =~= names_at(found@, Seq::empty()));
    for i in 0..n
        invariant
            n == found@.len(),
            are_plugins_of(all@, found@, readable(found@.take(i as int))),
            text::texts(names@) == names_at(found@, readable(found@.take(i as int))),
    {
        assert(found@.take(i + 1).drop_last() =~= found@.take(i as int));
        assert(found@.take(i + 1).last() == found@[i as int]);
        let ghost before = all@;
        let ghost places = readable(found@.take(i as int));
        match read_plugin_listing(found[i].body.as_str()) {
            None => {},
            Some(l) => {
                let ghost names_before = names@;
                assert(shows(found@[i as int].body@, l));
                assert(l.name@ == name_in(found@[i as int].body@));
                let name = l.name.clone();
                let p = InstalledPlugin {
                    id: found[i].id.clone(),
                    name: l.name,
                    version: l.version,
                    description: l.description,
                    enabled: l.enabled,
                    capabilities: l.capabilities,
                };
                assert(is_plugin_of(p, found@[i as int]));
                names.push(name);
                all.push(p);
                assert(readable(found@.take(i + 1)) == places.push(i as int));
                assert(text::texts(names@) =~= text::texts(names_before).push(name@));
                assert(text::texts(names_before).push(name@) =~= names_at(
                    found@,
                    places.push(i as int),
                ));
                assert forall|k: int| 0 <= k < all@.len() implies is_plugin_at(
                    #[trigger] all@[k],
                    found@,
                    places.push(i as int)[k],
                ) by {
                    if k < before.len() {
                        assert(is_plugin_at(before[k], found@, places[k]));
                    }
                }
            },
        }
    }
    assert(found@.take(n as int) =~= found@);
    let ghost places = readable(found@);
    let p = order::alphabetically(&names);
    let m: usize = p.len();
    let mut out: Vec<InstalledPlugin> = Vec::new();
    for i in 0..m
        invariant
            m == p@.len(),
            places == readable(found@),
            are_plugins_of(all@, found@, places),
            order::is_alphabetic(names_at(found@, places), p@),
            out@.len() == i,
            forall|k: int|
                0 <= k < i ==> is_plugin_at(
                    #[trigger] out@[k],
                    found@,
                    places[p@[k] as int],
                ),
    {
        assert(p@[i as int] < names_at(found@, places).len());
        let ghost before = out@;
        let ghost place = places[p@[i as int] as int];
        assert(is_plugin_at(all@[p@[i as int] as int], found@, place));
        let one = copy_plugin(&all[p[i]]);
        assert(is_plugin_at(one, found@, place));
        out.push(one);
        assert forall|k: int| 0 <= k < i + 1 implies is_plugin_at(
            #[trigger] out@[k],
            found@,
            places[p@[k] as int],
        ) by {
            if k < i {
                assert(is_plugin_at(before[k], found@, places[p@[k] as int]));
            }
        }
    }
    let ghost arranged = Seq::new(p@.len(), |i: int| places[p@[i] as int]);
    assert forall|k: int| 0 <= k < out@.len() implies is_plugin_at(
        #[trigger] out@[k],
        found@,
        arranged[k],
    ) by {
        assert(arranged[k] == places[p@[k] as int]);
    }
    assert(are_plugins_of(out@, found@, arranged));
    out
}

// ---- switching on and off --------------------------------------------------------------------

/// Where the plugins lie, below the directory of the program's data.
pub fn plugins_dir(data_dir: &str, sep: char) -> (r: String)
    ensures
        r@ == paths::joined(data_dir@, "plugins"@, sep),
{
    paths::join(data_dir, "plugins", sep)
}

/// Whether a plugin can be switched on and off: its directory is there and lies
/// in that of the plugins.
pub fn toggle_plugin_enabled(id: &str, is_dir: bool, inside: bool) -> (r: Result<(), String>)
    ensures
        (r is Ok) == (is_dir && inside),
        r matches Err(e) ==> e@ == (if !is_dir {
            "plugin '"@ + id@ + "' not found"@
        } else {
            "plugin path escapes plugins dir"@
        }),
{
    if !is_dir {
        let mut s = String::from_str("plugin '");
        s.append(id);
        s.append("' not found");
        return Err(s);
    }
    if !inside {
        return Err("plugin path escapes plugins dir".to_owned());
    }
    Ok(())
}

/// The second manifest is read as the first, but for the plugin being switched
/// on or off.
pub open spec fn reads_switched(before: Seq<char>, after: Seq<char>, enabled: bool) -> bool {
    &&& enabled_in(after) == Some(enabled)
    &&& toml_table_text(after, "plugin"@, "name"@) == toml_table_text(
        before,
        "plugin"@,
        "name"@,
    )
    &&& toml_table_text(after, "plugin"@, "version"@) == toml_table_text(
        before,
        "plugin"@,
        "version"@,
    )
    &&& plugin_text(after, "description"@) == plugin_text(before, "description"@)
    &&& capabilities_in(after) == capabilities_in(before)
    &&& toml_text(after, "name"@) == toml_text(before, "name"@)
    &&& flat_text(after, "version"@) == flat_text(before, "version"@)
    &&& flat_text(after, "description"@) == flat_text(before, "description"@)
}

fn same_text(a: Option<String>, b: Option<String>) -> (r: bool)
    ensures
        r == (text::opt_owned(a) == text::opt_owned(b)),
{
    match (a, b) {
        (Some(x), Some(y)) => text::same(x.as_str(), y.as_str()),
        (None, None) => true,
        _ => false,
    }
}

fn same_texts(a: &[String], b: &[String]) -> (r: bool)
    ensures
        r == (text::texts(a@) == text::texts(b@)),
{
    if a.len() != b.len() {
        assert(text::texts(a@).len() != text::texts(b@).len());
        return false;
    }
    for i in 0..a.len()
        invariant
            a@.len() == b@.len(),
            forall|k: int| 0 <= k < i ==> (#[trigger] a@[k])@ == b@[k]@,
    {
        if !text::same(a[i].as_str(), b[i].as_str()) {
            assert(text::texts(a@)[i as int] != text::texts(b@)[i as int]);
            return false;
        }
    }
    assert(text::texts(a@) =~= text::texts(b@));
    true
}

fn same_grants(a: &[Capability], b: &[Capability]) -> (r: bool)
    ensures
        r == (grants_of(a@) == grants_of(b@)),
{
    if a.len() != b.len() {
        assert(grants_of(a@).len() != grants_of(b@).len());
        return false;
    }
    for i in 0..a.len()
        invariant
            a@.len() == b@.len(),
            forall|k: int| 0 <= k < i ==> #[trigger] grants_of(a@)[k] == grants_of(b@)[k],
    {
        if !text::same(a[i].area.as_str(), b[i].area.as_str()) || !same_texts(
            a[i].grants.as_slice(),
            b[i].grants.as_slice(),
        ) {
            assert(grants_of(a@)[i as int] != grants_of(b@)[i as int]);
            return false;
        }
    }
    assert(grants_of(a@) =~= grants_of(b@));
    true
}

/// Whether the second manifest is read as the first, but for the plugin being
/// switched on or off.
pub fn is_read_switched(before: &str, after: &str, enabled: bool) -> (r: bool)
    ensures
        r == reads_switched(before@, after@, enabled),
{
    let switched = match read_enabled(after) {
        Some(e) => e == enabled,
        None => false,
    };
    let granted = match (read_capabilities(before), read_capabilities(after)) {
        (Some(x), Some(y)) => same_grants(y.as_slice(), x.as_slice()),
        (None, None) => true,
        _ => false,
    };
    switched && granted && same_text(
        read_table_text(after, "plugin", "name"),
        read_table_text(before, "plugin", "name"),
    ) && same_text(
        read_table_text(after, "plugin", "version"),
        read_table_text(before, "plugin", "version"),
    ) && same_text(
        read_plugin_text(after, "description"),
        read_plugin_text(before, "description"),
    ) && same_text(read_text(after, "name"), read_text(before, "name")) && same_text(
        read_flat_text(after, "version"),
        read_flat_text(before, "version"),
    ) && same_text(
        read_flat_text(after, "description"),
        read_flat_text(before, "description"),
    )
}

/// The manifest of a plugin that was switched on or off.
#[derive(Debug)]
pub struct Switched {
    pub body: String,
    /// It was read again: it says what the old one said, but for the switch.
    pub reads_back: bool,
}

/// The manifest of a plugin that was switched on or off, and whether it reads
/// so. Nothing where there is none to write.
pub fn with_enabled(body: &str, enabled: bool) -> (r: Option<Switched>)
    ensures
        match toml_with_flag(body@, "enabled"@, enabled) {
            Some(after) => r matches Some(s) && s.body@ == after && s.reads_back == reads_switched(
                body@,
                after,
                enabled,
            ),
            None => r is None,
        },
{
    match write_flag(body, "enabled", enabled) {
        Some(after) => {
            let reads_back = is_read_switched(body, after.as_str(), enabled);
            Some(Switched { body: after, reads_back })
        },
        None => None,
    }
}

/// A plugin that was switched on or off is listed so, and otherwise as it was
/// before, wherever its new manifest reads back.
pub proof fn lemma_switched_plugin_is_listed_so(
    before: Seq<char>,
    after: Seq<char>,
    enabled: bool,
    was: PluginListing,
    is: PluginListing,
)
    requires
        toml_with_flag(before, "enabled"@, enabled) == Some(after),
        reads_switched(before, after, enabled),
        is_manifest(before),
        shows(before, was),
        shows(after, is),
    ensures
        is_manifest(after),
        is.enabled == enabled,
        is.name@ == was.name@,
        is.version@ == was.version@,
        is.description@ == was.description@,
        text::texts(is.capabilities@) == text::texts(was.capabilities@),
{
    if is_sectioned(before) {
        let all = labels(capabilities_in(before)->0);
        let p = choose|p: Seq<usize>|
            #[trigger] order::is_alphabetic(all, p) && text::texts(was.capabilities@) == Seq::new(
                p.len(),
                |i: int| all[p[i] as int],
            );
        let q = choose|p: Seq<usize>|
            #[trigger] order::is_alphabetic(all, p) && text::texts(is.capabilities@) == Seq::new(
                p.len(),
                |i: int| all[p[i] as int],
            );
        order::lemma_alphabetic_is_unique(all, p, q);
    } else {
        assert(text::texts(is.capabilities@) =~= text::texts(was.capabilities@));
    }
}

/// The plugin of the registry that is to be installed.
pub fn find_in_registry(ids: &[String], id: &str) -> (r: Result<usize, String>)
    ensures
        match r {
            Ok(i) => i < ids@.len() && ids@[i as int]@ == id@ && forall|k: int|
                0 <= k < i ==> (#[trigger] ids@[k])@ != id@,
            Err(e) => !text::texts(ids@).contains(id@) && e@ == "plugin '"@ + id@
                + "' not in registry"@,
        },
{
    for i in 0..ids.len()
        invariant
            forall|k: int| 0 <= k < i ==> (#[trigger] ids@[k])@ != id@,
    {
        if text::same(ids[i].as_str(), id) {
            return Ok(i);
        }
    }
    assert forall|k: int| 0 <= k < text::texts(ids@).len() implies text::texts(ids@)[k] != id@ by {
        assert(ids@[k]@ != id@);
    }
    let mut s = String::from_str("plugin '");
    s.append(id);
    s.append("' not in registry");
    Err(s)
}

// ---- laws --------------------------------------------------------------------------------------

/// A plugin is on where its manifest says so or says nothing. Its name is that of
/// the section `plugin` where all fields of a section are there, and that at the
/// top otherwise; only a manifest with sections grants anything.
pub proof fn lemma_listing_shows_the_manifest(body: &str, l: PluginListing, keys: Seq<Seq<char>>)
    requires
        call_ensures(read_plugin_listing, (body,), Some(l)),
        toml_keys(body@) == Some(keys),
    ensures
        !keys.contains("enabled"@) ==> l.enabled,
        keys.contains("enabled"@) ==> toml_flag(body@, "enabled"@) == Some(l.enabled),
        toml_table_text(body@, "plugin"@, "name"@) == Some(l.name@) || toml_text(body@, "name"@)
            == Some(l.name@),
        toml_table_text(body@, "plugin"@, "name"@) is None ==> toml_text(body@, "name"@) == Some(
            l.name@,
        ) && l.capabilities@.len() == 0,
{
}

proof fn lemma_labels(caps: Seq<(Seq<char>, Seq<Seq<char>>)>, i: int)
    requires
        0 <= i < labels(caps).len(),
    ensures
        exists|k: int, g: int|
            0 <= k < caps.len() && 0 <= g < caps[k].1.len() && labels(caps)[i] == #[trigger] label(
                caps[k].0,
                caps[k].1[g],
            ),
    decreases caps.len(),
{
    if caps.len() > 0 {
        let rest = labels(caps.drop_last());
        if i < rest.len() {
            lemma_labels(caps.drop_last(), i);
            let (k, g) = choose|k: int, g: int|
                0 <= k < caps.drop_last().len() && 0 <= g < caps.drop_last()[k].1.len() && labels(
                    caps.drop_last(),
                )[i] == #[trigger] label(caps.drop_last()[k].0, caps.drop_last()[k].1[g]);
            assert(labels(caps)[i] == label(caps[k].0, caps[k].1[g]));
        } else {
            let g = i - rest.len();
            assert(labels(caps)[i] == area_labels(caps.last().0, caps.last().1)[g]);
            assert(labels(caps)[i] == label(caps[caps.len() - 1].0, caps[caps.len() - 1].1[g]));
        }
    }
}

/// Each line tells of a grant: its area, a colon and the grant.
pub proof fn lemma_lines_tell_of_grants(caps: &[Capability], r: Vec<String>, i: int)
    requires
        call_ensures(flatten_capabilities, (caps,), r),
        0 <= i < r@.len(),
    ensures
        exists|k: int, g: int|
            0 <= k < caps@.len() && 0 <= g < (#[trigger] caps@[k]).grants@.len() && r@[i]@
                == caps@[k].area@ + ":"@ + (#[trigger] caps@[k].grants@[g])@,
        forall|j: int| i < j < r@.len() ==> !order::text_less((#[trigger] r@[j])@, r@[i]@),
{
    let c = grants_of(caps@);
    let all = labels(c);
    let p = choose|p: Seq<usize>|
        #[trigger] order::is_alphabetic(all, p) && text::texts(r@) == Seq::new(
            p.len(),
            |i: int| all[p[i] as int],
        );
    assert(order::lists_all(p, all.len() as int));
    assert(text::texts(r@).len() == r@.len());
    assert(r@.len() == p.len());
    assert(text::texts(r@)[i] == all[p[i] as int]);
    lemma_labels(c, p[i] as int);
    let (k, g) = choose|k: int, g: int|
        0 <= k < c.len() && 0 <= g < c[k].1.len() && all[p[i] as int] == #[trigger] label(
            c[k].0,
            c[k].1[g],
        );
    assert(c[k].1[g] == caps@[k].grants@[g]@);
    assert(r@[i]@ == caps@[k].area@ + ":"@ + caps@[k].grants@[g]@);
    assert forall|j: int| i < j < r@.len() implies !order::text_less(
        (#[trigger] r@[j])@,
        r@[i]@,
    ) by {
        assert(text::texts(r@)[j] == all[p[j] as int]);
        assert(order::alphabetic(all, p[i], p[j]));
        order::lemma_one_text_comes_first(r@[i]@, r@[j]@);
    }
}

/// A plugin is switched only where its directory is there and lies among the
/// plugins.
pub proof fn lemma_only_installed_plugins_are_switched(
    id: &str,
    is_dir: bool,
    inside: bool,
    r: Result<(), String>,
)
    requires
        call_ensures(toggle_plugin_enabled, (id, is_dir, inside), r),
    ensures
        r is Ok <==> is_dir && inside,
{
}

/// What is written over a manifest says whether the plugin is on, under the key
/// `enabled`, and it is said to read back only where it does.
pub proof fn lemma_switch_is_written_under_its_key(body: &str, enabled: bool, s: Switched)
    requires
        call_ensures(with_enabled, (body, enabled), Some(s)),
    ensures
        toml_with_flag(body@, "enabled"@, enabled) == Some(s.body@),
        s.reads_back ==> enabled_in(s.body@) == Some(enabled) && toml_text(s.body@, "name"@)
            == toml_text(body@, "name"@) && toml_table_text(s.body@, "plugin"@, "name"@)
            == toml_table_text(body@, "plugin"@, "name"@) && capabilities_in(s.body@)
            == capabilities_in(body@),
{
}

/// A plugin of the registry is found by its id.
pub proof fn lemma_plugin_is_found_by_its_id(
    ids: &[String],
    id: &str,
    r: Result<usize, String>,
    k: int,
)
    requires
        call_ensures(find_in_registry, (ids, id), r),
        0 <= k < ids@.len(),
    ensures
        r matches Ok(i) ==> i < ids@.len() && ids@[i as int]@ == id@ && (ids@[k]@ == id@ ==> i <= k),
        r is Err ==> ids@[k]@ != id@,
{
    if r is Err {
        assert(text::texts(ids@)[k] == ids@[k]@);
        if ids@[k]@ == id@ {
            assert(text::texts(ids@).contains(id@));
        }
    }
}

} // verus!
