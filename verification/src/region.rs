//! Regions: the hosts of each service in one deployment of the storage
//! service, the regions that are known beforehand, and how the answer to a
//! region query is read.

use crate::config::{host_url, make_host_url};
use crate::json::{
    get_keys,
    get_length,
    get_string,
    keys_at,
    length_at,
    Nodes,
    parse,
    string_at,
    text_nodes,
};
use crate::text::{clone_strings, concat, decimal, u64_to_decimal};
use vstd::prelude::*;
use vstd::string::*;

verus! {

/// The regions that are known beforehand.
#[derive(Clone, Copy, Debug, PartialEq, Eq, Structural)]
pub enum RegionId {
    /// East China.
    Z0,
    /// North China.
    Z1,
    /// South China.
    Z2,
    /// North America.
    NA0,
    /// Singapore.
    AS0,
}

/// The hosts of one service in one region, in three bundles of falling
/// priority.
#[derive(Debug)]
pub struct HostGroup {
    /// The hosts to use first.
    pub primary: Vec<String>,
    /// The hosts to use when the first fail.
    pub backup: Vec<String>,
    /// Hosts kept for clients that cannot reach the others.
    pub old: Vec<String>,
}

/// The mathematical value of a [`HostGroup`].
pub struct HostGroupView {
    pub primary: Seq<Seq<char>>,
    pub backup: Seq<Seq<char>>,
    pub old: Seq<Seq<char>>,
}

impl DeepView for HostGroup {
    type V = HostGroupView;

    open spec fn deep_view(&self) -> HostGroupView {
        HostGroupView {
            primary: self.primary.deep_view(),
            backup: self.backup.deep_view(),
            old: self.old.deep_view(),
        }
    }
}

/// The hosts of a group in the order in which they are tried.
pub open spec fn hosts_in_order(group: HostGroupView) -> Seq<Seq<char>> {
    group.primary + group.backup + group.old
}

/// The URLs of the hosts under the scheme that `use_https` selects.
pub open spec fn urls_of(hosts: Seq<Seq<char>>, use_https: bool) -> Seq<Seq<char>> {
    Seq::new(hosts.len(), |i: int| host_url(use_https, hosts[i]))
}

/// The URLs of a group in the order in which they are tried.
pub open spec fn group_urls(group: HostGroupView, use_https: bool) -> Seq<Seq<char>> {
    urls_of(hosts_in_order(group), use_https)
}

fn append_urls(urls: &mut Vec<String>, hosts: &Vec<String>, use_https: bool)
    ensures
        final(urls).deep_view() == old(urls).deep_view() + urls_of(hosts.deep_view(), use_https),
{
    let ghost before = urls.deep_view();
    let mut i: usize = 0;
    assert(urls.deep_view() =~= before + urls_of(hosts.deep_view().take(0), use_https));
    while i < hosts.len()
        invariant
            i <= hosts.len(),
            urls.deep_view() == before + urls_of(hosts.deep_view().take(i as int), use_https),
        decreases hosts.len() - i,
    {
        let ghost so_far = urls.deep_view();
        let url = make_host_url(use_https, hosts[i].as_str());
        urls.push(url);
        proof {
            assert(hosts.deep_view()[i as int] == hosts[i as int]@);
            assert(urls.deep_view() =~= so_far.push(url@));
            assert(urls.deep_view() =~= before + urls_of(
                hosts.deep_view().take(i + 1),
                use_https,
            ));
        }
        i += 1;
    }
    assert(hosts.deep_view().take(i as int) =~= hosts.deep_view());
}

impl HostGroup {
    /// A copy of the group.
    pub fn duplicate(&self) -> (r: Self)
        ensures
            r.deep_view() == self.deep_view(),
    {
        HostGroup {
            primary: clone_strings(&self.primary),
            backup: clone_strings(&self.backup),
            old: clone_strings(&self.old),
        }
    }

    /// A group without hosts.
    pub fn empty() -> (r: Self)
        ensures
            r.deep_view() == (HostGroupView {
                primary: Seq::empty(),
                backup: Seq::empty(),
                old: Seq::empty(),
            }),
    {
        let r = HostGroup { primary: Vec::new(), backup: Vec::new(), old: Vec::new() };
        assert(r.primary.deep_view() =~= Seq::<Seq<char>>::empty());
        assert(r.backup.deep_view() =~= Seq::<Seq<char>>::empty());
        assert(r.old.deep_view() =~= Seq::<Seq<char>>::empty());
        r
    }

    /// The URLs of the group in the order in which they are tried: the
    /// primary hosts, the backup hosts, the old hosts.
    pub fn urls(&self, use_https: bool) -> (r: Vec<String>)
        ensures
            r.deep_view() == group_urls(self.deep_view(), use_https),
    {
        let mut urls: Vec<String> = Vec::new();
        assert(urls.deep_view() =~= Seq::<Seq<char>>::empty());
        append_urls(&mut urls, &self.primary, use_https);
        append_urls(&mut urls, &self.backup, use_https);
        append_urls(&mut urls, &self.old, use_https);
        assert(urls.deep_view() =~= group_urls(self.deep_view(), use_https));
        urls
    }
}

/// One deployment of the storage service: its id, if it is one of those
/// known beforehand, and the hosts of its services.
#[derive(Debug)]
pub struct Region {
    /// The id, for a region that is known beforehand.
    pub region_id: Option<RegionId>,
    /// The hosts that take uploads.
    pub up: HostGroup,
    /// The hosts that serve downloads.
    pub io: HostGroup,
    /// The hosts that manage objects.
    pub rs: HostGroup,
    /// The hosts that list objects.
    pub rsf: HostGroup,
    /// The hosts of the management API.
    pub api: HostGroup,
}

/// The mathematical value of a [`Region`].
pub struct RegionView {
    pub region_id: Option<RegionId>,
    pub up: HostGroupView,
    pub io: HostGroupView,
    pub rs: HostGroupView,
    pub rsf: HostGroupView,
    pub api: HostGroupView,
}

impl DeepView for Region {
    type V = RegionView;

    open spec fn deep_view(&self) -> RegionView {
        RegionView {
            region_id: self.region_id,
            up: self.up.deep_view(),
            io: self.io.deep_view(),
            rs: self.rs.deep_view(),
            rsf: self.rsf.deep_view(),
            api: self.api.deep_view(),
        }
    }
}

/// The part of host names by which the known regions differ.
pub open spec fn region_suffix(id: RegionId) -> Seq<char> {
    match id {
        RegionId::Z0 => ""@,
        RegionId::Z1 => "-z1"@,
        RegionId::Z2 => "-z2"@,
        RegionId::NA0 => "-na0"@,
        RegionId::AS0 => "-as0"@,
    }
}

/// A host name made of a first part, the region's suffix and a domain.
pub open spec fn host_name(first: Seq<char>, id: RegionId, domain: Seq<char>) -> Seq<char> {
    first + region_suffix(id) + domain
}

/// The hosts of a known region.
pub open spec fn known_region(id: RegionId) -> RegionView {
    RegionView {
        region_id: Some(id),
        up: HostGroupView {
            primary: seq![
                host_name("upload"@, id, ".qiniup.com"@),
                host_name("up"@, id, ".qiniup.com"@),
            ],
            backup: Seq::empty(),
            old: seq![
                host_name("upload"@, id, ".qbox.me"@),
                host_name("up"@, id, ".qbox.me"@),
            ],
        },
        io: HostGroupView {
            primary: seq![host_name("iovip"@, id, ".qbox.me"@)],
            backup: Seq::empty(),
            old: Seq::empty(),
        },
        rs: HostGroupView {
            primary: seq![host_name("rs"@, id, ".qbox.me"@)],
            backup: Seq::empty(),
            old: Seq::empty(),
        },
        rsf: HostGroupView {
            primary: seq![host_name("rsf"@, id, ".qbox.me"@)],
            backup: Seq::empty(),
            old: Seq::empty(),
        },
        api: HostGroupView {
            primary: seq![host_name("api"@, id, ".qiniu.com"@)],
            backup: Seq::empty(),
            old: Seq::empty(),
        },
    }
}

/// The ids of the known regions, in the order in which they are listed.
pub open spec fn known_ids() -> Seq<RegionId> {
    seq![RegionId::Z0, RegionId::Z1, RegionId::Z2, RegionId::NA0, RegionId::AS0]
}

fn suffix_of(id: RegionId) -> (r: &'static str)
    ensures
        r@ == region_suffix(id),
{
    match id {
        RegionId::Z0 => "",
        RegionId::Z1 => "-z1",
        RegionId::Z2 => "-z2",
        RegionId::NA0 => "-na0",
        RegionId::AS0 => "-as0",
    }
}

fn make_host_name(first: &str, id: RegionId, domain: &str) -> (r: String)
    ensures
        r@ == host_name(first@, id, domain@),
{
    let mut r = first.to_owned();
    r.append(suffix_of(id));
    r.append(domain);
    r
}

fn single(host: String) -> (r: HostGroup)
    ensures
        r.deep_view() == (HostGroupView {
            primary: seq![host@],
            backup: Seq::empty(),
            old: Seq::empty(),
        }),
{
    let mut primary: Vec<String> = Vec::new();
    primary.push(host);
    let r = HostGroup { primary, backup: Vec::new(), old: Vec::new() };
    assert(r.primary.deep_view() =~= seq![host@]);
    assert(r.backup.deep_view() =~= Seq::<Seq<char>>::empty());
    assert(r.old.deep_view() =~= Seq::<Seq<char>>::empty());
    r
}

impl RegionId {
    /// The region that the id stands for.
    pub fn as_region(self) -> (r: Region)
        ensures
            r.deep_view() == known_region(self),
    {
        let mut primary: Vec<String> = Vec::new();
        primary.push(make_host_name("upload", self, ".qiniup.com"));
        primary.push(make_host_name("up", self, ".qiniup.com"));
        let mut old: Vec<String> = Vec::new();
        old.push(make_host_name("upload", self, ".qbox.me"));
        old.push(make_host_name("up", self, ".qbox.me"));
        let up = HostGroup { primary, backup: Vec::new(), old };
        assert(up.primary.deep_view() =~= known_region(self).up.primary);
        assert(up.backup.deep_view() =~= known_region(self).up.backup);
        assert(up.old.deep_view() =~= known_region(self).up.old);
        Region {
            region_id: Some(self),
            up,
            io: single(make_host_name("iovip", self, ".qbox.me")),
            rs: single(make_host_name("rs", self, ".qbox.me")),
            rsf: single(make_host_name("rsf", self, ".qbox.me")),
            api: single(make_host_name("api", self, ".qiniu.com")),
        }
    }
}

/// Copies a list of regions.
pub fn clone_regions(regions: &Vec<Region>) -> (r: Vec<Region>)
    ensures
        r.deep_view() == regions.deep_view(),
{
    let mut r: Vec<Region> = Vec::new();
    let mut i: usize = 0;
    while i < regions.len()
        invariant
            i <= regions.len(),
            r.len() == i,
            forall|k: int| 0 <= k < i ==> (#[trigger] r[k]).deep_view() == regions[k].deep_view(),
        decreases regions.len() - i,
    {
        r.push(regions[i].duplicate());
        i += 1;
    }
    assert(r.deep_view() =~= regions.deep_view());
    r
}

impl Region {
    /// A copy of the region.
    pub fn duplicate(&self) -> (r: Self)
        ensures
            r.deep_view() == self.deep_view(),
    {
        Region {
            region_id: self.region_id,
            up: self.up.duplicate(),
            io: self.io.duplicate(),
            rs: self.rs.duplicate(),
            rsf: self.rsf.duplicate(),
            api: self.api.duplicate(),
        }
    }

    /// The region of East China.
    pub fn z0() -> (r: Region)
        ensures
            r.deep_view() == known_region(RegionId::Z0),
    {
        RegionId::Z0.as_region()
    }

    /// The region of North China.
    pub fn z1() -> (r: Region)
        ensures
            r.deep_view() == known_region(RegionId::Z1),
    {
        RegionId::Z1.as_region()
    }

    /// The region of South China.
    pub fn z2() -> (r: Region)
        ensures
            r.deep_view() == known_region(RegionId::Z2),
    {
        RegionId::Z2.as_region()
    }

    /// The region of North America.
    pub fn na0() -> (r: Region)
        ensures
            r.deep_view() == known_region(RegionId::NA0),
    {
        RegionId::NA0.as_region()
    }

    /// The region of Singapore.
    pub fn as0() -> (r: Region)
        ensures
            r.deep_view() == known_region(RegionId::AS0),
    {
        RegionId::AS0.as_region()
    }

    /// The region of East China.
    pub fn hua_dong() -> (r: Region)
        ensures
            r.deep_view() == known_region(RegionId::Z0),
    {
        RegionId::Z0.as_region()
    }

    /// The region of North China.
    pub fn hua_bei() -> (r: Region)
        ensures
            r.deep_view() == known_region(RegionId::Z1),
    {
        RegionId::Z1.as_region()
    }

    /// The region of South China.
    pub fn hua_nan() -> (r: Region)
        ensures
            r.deep_view() == known_region(RegionId::Z2),
    {
        RegionId::Z2.as_region()
    }

    /// All known regions, in the order of [`known_ids`].
    pub fn all() -> (r: Vec<Region>)
        ensures
            r.deep_view() == Seq::new(known_ids().len(), |i: int| known_region(known_ids()[i])),
    {
        let mut r: Vec<Region> = Vec::new();
        r.push(RegionId::Z0.as_region());
        r.push(RegionId::Z1.as_region());
        r.push(RegionId::Z2.as_region());
        r.push(RegionId::NA0.as_region());
        r.push(RegionId::AS0.as_region());
        assert(r.deep_view() =~= Seq::new(
            known_ids().len(),
            |i: int| known_region(known_ids()[i]),
        ));
        r
    }

    /// The id of the region, if it is one of those known beforehand.
    pub fn region_id(&self) -> (r: Option<RegionId>)
        ensures
            r == self.region_id,
    {
        self.region_id
    }

    /// The URLs that take uploads, in the order in which they are tried.
    pub fn up_urls(&self, use_https: bool) -> (r: Vec<String>)
        ensures
            r.deep_view() == group_urls(self.deep_view().up, use_https),
    {
        self.up.urls(use_https)
    }

    /// The URLs that serve downloads, in the order in which they are tried.
    pub fn io_urls(&self, use_https: bool) -> (r: Vec<String>)
        ensures
            r.deep_view() == group_urls(self.deep_view().io, use_https),
    {
        self.io.urls(use_https)
    }

    /// The URLs that manage objects, in the order in which they are tried.
    pub fn rs_urls(&self, use_https: bool) -> (r: Vec<String>)
        ensures
            r.deep_view() == group_urls(self.deep_view().rs, use_https),
    {
        self.rs.urls(use_https)
    }

    /// The URLs that list objects, in the order in which they are tried.
    pub fn rsf_urls(&self, use_https: bool) -> (r: Vec<String>)
        ensures
            r.deep_view() == group_urls(self.deep_view().rsf, use_https),
    {
        self.rsf.urls(use_https)
    }

    /// The URLs of the management API, in the order in which they are tried.
    pub fn api_urls(&self, use_https: bool) -> (r: Vec<String>)
        ensures
            r.deep_view() == group_urls(self.deep_view().api, use_https),
    {
        self.api.urls(use_https)
    }
}

/// The JSON Pointer of the element `index` of the array at `pointer`.
pub open spec fn element_pointer(pointer: Seq<char>, index: nat) -> Seq<char> {
    pointer + seq!['/'] + decimal(index)
}

/// The first `count` elements of the array at `pointer` that are strings,
/// in their order.
pub open spec fn strings_upto(nodes: Nodes, pointer: Seq<char>, count: nat) -> Seq<Seq<char>>
    decreases count,
{
    if count == 0 {
        Seq::empty()
    } else {
        let before = strings_upto(nodes, pointer, (count - 1) as nat);
        match string_at(nodes, element_pointer(pointer, (count - 1) as nat)) {
            Some(text) => before.push(text),
            None => before,
        }
    }
}

/// The strings of the array at `pointer`; none where no array is there.
pub open spec fn strings_at(nodes: Nodes, pointer: Seq<char>) -> Seq<Seq<char>> {
    match length_at(nodes, pointer) {
        Some(count) => strings_upto(nodes, pointer, count),
        None => Seq::empty(),
    }
}

/// The hosts of the service `service` of the region at `region`: primary
/// are the main hosts of its accelerated and of its source entry, backup
/// the backup hosts of the two, old the main hosts of its two old entries.
pub open spec fn group_at(nodes: Nodes, region: Seq<char>, service: Seq<char>) -> HostGroupView {
    let base = region + seq!['/'] + service;
    HostGroupView {
        primary: strings_at(nodes, base + "/acc/main"@) + strings_at(nodes, base + "/src/main"@),
        backup: strings_at(nodes, base + "/acc/backup"@) + strings_at(
            nodes,
            base + "/src/backup"@,
        ),
        old: strings_at(nodes, base + "/old_acc/main"@) + strings_at(
            nodes,
            base + "/old_src/main"@,
        ),
    }
}

/// The region that the document describes at `region`.
pub open spec fn region_at(nodes: Nodes, region: Seq<char>) -> RegionView {
    RegionView {
        region_id: None,
        up: group_at(nodes, region, "up"@),
        io: group_at(nodes, region, "io"@),
        rs: group_at(nodes, region, "rs"@),
        rsf: group_at(nodes, region, "rsf"@),
        api: group_at(nodes, region, "api"@),
    }
}

/// The regions that the answer to a region query lists under `hosts`, in
/// their order.
pub open spec fn regions_of_nodes(nodes: Nodes) -> Seq<RegionView> {
    match length_at(nodes, "/hosts"@) {
        Some(count) => Seq::new(
            count,
            |i: int| region_at(nodes, element_pointer("/hosts"@, i as nat)),
        ),
        None => Seq::empty(),
    }
}

/// Whether every element of the array under `hosts` is an object.
pub open spec fn lists_objects(nodes: Nodes) -> bool {
    match length_at(nodes, "/hosts"@) {
        Some(count) => forall|i: int|
            0 <= i < count ==> keys_at(nodes, #[trigger] element_pointer("/hosts"@, i as nat))
                is Some,
        None => false,
    }
}

/// The regions that the body of an answer to a region query lists: `None`
/// unless the body is a JSON document with an array under `hosts` that is
/// not empty and holds objects only.
pub open spec fn regions_of_body(body: Seq<u8>) -> Option<Seq<RegionView>> {
    match text_nodes(body) {
        Some(nodes) => if regions_of_nodes(nodes).len() > 0 && lists_objects(nodes) {
            Some(regions_of_nodes(nodes))
        } else {
            None
        },
        None => None,
    }
}

pub(crate) fn make_element_pointer(pointer: &str, index: usize) -> (r: String)
    ensures
        r@ == element_pointer(pointer@, index as nat),
{
    let mut r = pointer.to_owned();
    proof {
        reveal_strlit("/");
        assert("/"@ =~= seq!['/']);
    }
    r.append("/");
    let digits = u64_to_decimal(index as u64);
    r.append(digits.as_str());
    r
}

pub(crate) fn append_strings(hosts: &mut Vec<String>, document: &serde_json::Value, pointer: &str)
    ensures
        final(hosts).deep_view() == old(hosts).deep_view() + strings_at(
            crate::json::nodes(*document),
            pointer@,
        ),
{
    let ghost nodes = crate::json::nodes(*document);
    let ghost before = hosts.deep_view();
    let count = match get_length(document, pointer) {
        Some(count) => count,
        None => {
            assert(hosts.deep_view() =~= before + strings_at(nodes, pointer@));
            return ;
        },
    };
    let mut i: usize = 0;
    assert(hosts.deep_view() =~= before + strings_upto(nodes, pointer@, 0));
    while i < count
        invariant
            i <= count,
            nodes == crate::json::nodes(*document),
            hosts.deep_view() == before + strings_upto(nodes, pointer@, i as nat),
        decreases count - i,
    {
        let ghost so_far = hosts.deep_view();
        let element = make_element_pointer(pointer, i);
        match get_string(document, element.as_str()) {
            Some(text) => {
                hosts.push(text);
                assert(hosts.deep_view() =~= so_far.push(text@));
            },
            None => {},
        }
        assert(hosts.deep_view() =~= before + strings_upto(nodes, pointer@, (i + 1) as nat));
        i += 1;
    }
}

fn read_group(document: &serde_json::Value, region: &str, service: &str) -> (r: HostGroup)
    ensures
        r.deep_view() == group_at(crate::json::nodes(*document), region@, service@),
{
    let mut base = region.to_owned();
    proof {
        reveal_strlit("/");
        assert("/"@ =~= seq!['/']);
    }
    base.append("/");
    base.append(service);
    let mut primary: Vec<String> = Vec::new();
    let mut backup: Vec<String> = Vec::new();
    let mut old: Vec<String> = Vec::new();
    assert(primary.deep_view() =~= Seq::<Seq<char>>::empty());
    assert(backup.deep_view() =~= Seq::<Seq<char>>::empty());
    assert(old.deep_view() =~= Seq::<Seq<char>>::empty());
    append_strings(&mut primary, document, concat(base.as_str(), "/acc/main").as_str());
    append_strings(&mut primary, document, concat(base.as_str(), "/src/main").as_str());
    append_strings(&mut backup, document, concat(base.as_str(), "/acc/backup").as_str());
    append_strings(&mut backup, document, concat(base.as_str(), "/src/backup").as_str());
    append_strings(&mut old, document, concat(base.as_str(), "/old_acc/main").as_str());
    append_strings(&mut old, document, concat(base.as_str(), "/old_src/main").as_str());
    let r = HostGroup { primary, backup, old };
    let ghost want = group_at(crate::json::nodes(*document), region@, service@);
    assert(r.primary.deep_view() =~= want.primary);
    assert(r.backup.deep_view() =~= want.backup);
    assert(r.old.deep_view() =~= want.old);
    r
}

fn read_region(document: &serde_json::Value, region: &str) -> (r: Region)
    ensures
        r.deep_view() == region_at(crate::json::nodes(*document), region@),
{
    Region {
        region_id: None,
        up: read_group(document, region, "up"),
        io: read_group(document, region, "io"),
        rs: read_group(document, region, "rs"),
        rsf: read_group(document, region, "rsf"),
        api: read_group(document, region, "api"),
    }
}

/// Reads the regions that the body of an answer to a region query lists,
/// the region of the bucket first and its backups after it. `None` unless
/// the body is a JSON document with an array under `hosts` that is not
/// empty and holds objects only.
pub fn regions_from_query_body(body: &[u8]) -> (r: Option<Vec<Region>>)
    ensures
        r.deep_view() == regions_of_body(body@),
{
    let document = match parse(body) {
        Some(document) => document,
        None => {
            return None;
        },
    };
    let ghost nodes = crate::json::nodes(document);
    let count = match get_length(&document, "/hosts") {
        Some(count) => count,
        None => {
            return None;
        },
    };
    let mut regions: Vec<Region> = Vec::new();
    let mut i: usize = 0;
    while i < count
        invariant
            i <= count,
            nodes == crate::json::nodes(document),
            regions.len() == i,
            length_at(nodes, "/hosts"@) == Some(count as nat),
            text_nodes(body@) == Some(nodes),
            forall|k: int|
                0 <= k < i ==> (#[trigger] regions[k]).deep_view() == region_at(
                    nodes,
                    element_pointer("/hosts"@, k as nat),
                ),
            forall|k: int|
                0 <= k < i ==> keys_at(nodes, #[trigger] element_pointer("/hosts"@, k as nat))
                    is Some,
        decreases count - i,
    {
        let pointer = make_element_pointer("/hosts", i);
        if get_keys(&document, pointer.as_str()).is_none() {
            proof {
                let at = i as int;
                assert(keys_at(nodes, element_pointer("/hosts"@, at as nat)) is None);
                assert(!lists_objects(nodes));
            }
            return None;
        }
        regions.push(read_region(&document, pointer.as_str()));
        i += 1;
    }
    if regions.len() == 0 {
        return None;
    }
    assert(regions.deep_view() =~= regions_of_nodes(nodes));
    Some(regions)
}

} // verus!
