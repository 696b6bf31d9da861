//! What is known of an address: its city, country, autonomous system and network.

use vstd::prelude::*;
use crate::text::{clone_opt, opt_view};

verus! {

/// What is known of an address.
#[derive(Debug, PartialEq)]
pub struct IpGeoData {
    pub city: Option<CityData>,
    pub country: Option<CountryData>,
    pub as_data: Option<AsData>,
    pub network: Option<NetworkData>,
}

/// A city.
#[derive(Debug, PartialEq)]
pub struct CityData {
    pub name: Option<String>,
    pub iso: Option<i64>,
    pub cn_province: Option<String>,
    pub cn_city: Option<String>,
    pub cn_districts: Option<String>,
}

impl Default for CityData {
    fn default() -> (v: Self)
        ensures
            v.name is None,
            v.iso is None,
            v.cn_province is None,
            v.cn_city is None,
            v.cn_districts is None,
    {
        CityData {
            name: None,
            iso: None,
            cn_province: None,
            cn_city: None,
            cn_districts: None,
        }
    }
}

/// A country.
#[derive(Debug, PartialEq)]
pub struct CountryData {
    pub name: Option<String>,
    pub iso: Option<String>,
}

impl Default for CountryData {
    fn default() -> (v: Self)
        ensures
            v.name is None,
            v.iso is None,
    {
        CountryData {
            name: None,
            iso: None,
        }
    }
}

/// An autonomous system.
#[derive(Debug, PartialEq)]
pub struct AsData {
    pub number: Option<i64>,
    pub organization: Option<String>,
    pub ip_address: Option<String>,
    pub network: Option<AsNetwork>,
}

impl Default for AsData {
    fn default() -> (v: Self)
        ensures
            v.number is None,
            v.organization is None,
            v.ip_address is None,
            v.network is None,
    {
        AsData {
            number: None,
            organization: None,
            ip_address: None,
            network: None,
        }
    }
}

/// The network of an autonomous system.
#[derive(Debug, PartialEq)]
pub struct AsNetwork {
    pub ip_address: Option<String>,
    pub prefix_length: Option<i32>,
}

impl Default for AsNetwork {
    fn default() -> (v: Self)
        ensures
            v.ip_address is None,
            v.prefix_length is None,
    {
        AsNetwork {
            ip_address: None,
            prefix_length: None,
        }
    }
}

/// A provider's network.
#[derive(Debug, PartialEq)]
pub struct NetworkData {
    pub isp: Option<String>,
    pub net_type: Option<String>,
}

impl Default for NetworkData {
    fn default() -> (v: Self)
        ensures
            v.isp is None,
            v.net_type is None,
    {
        NetworkData {
            isp: None,
            net_type: None,
        }
    }
}

// ----------------------------------------------------------------------- views
/// What is known of an address, as a value.
pub ghost struct GeoView {
    pub city: Option<CityView>,
    pub country: Option<CountryView>,
    pub as_data: Option<AsView>,
    pub network: Option<NetworkView>,
}

/// A city as a value.
pub ghost struct CityView {
    pub name: Option<Seq<char>>,
    pub iso: Option<i64>,
    pub cn_province: Option<Seq<char>>,
    pub cn_city: Option<Seq<char>>,
    pub cn_districts: Option<Seq<char>>,
}

/// A country as a value.
pub ghost struct CountryView {
    pub name: Option<Seq<char>>,
    pub iso: Option<Seq<char>>,
}

/// An autonomous system as a value.
pub ghost struct AsView {
    pub number: Option<i64>,
    pub organization: Option<Seq<char>>,
    pub ip_address: Option<Seq<char>>,
    pub network: Option<AsNetworkView>,
}

/// The network of an autonomous system as a value.
pub ghost struct AsNetworkView {
    pub ip_address: Option<Seq<char>>,
    pub prefix_length: Option<i32>,
}

/// A provider's network as a value.
pub ghost struct NetworkView {
    pub isp: Option<Seq<char>>,
    pub net_type: Option<Seq<char>>,
}

/// The one value if it is there and either the other is not or it takes precedence; otherwise the
/// other.
pub open spec fn merged<T>(this: Option<T>, other: Option<T>, overwrite: bool) -> Option<T> {
    if other is Some && (this is None || overwrite) {
        other
    } else {
        this
    }
}

fn merge_text(this: Option<String>, other: &Option<String>, overwrite: bool) -> (r: Option<String>)
    ensures
        opt_view(r) == merged(opt_view(this), opt_view(*other), overwrite),
{
    match other {
        Some(value) => if this.is_none() || overwrite {
            Some(value.clone())
        } else {
            this
        },
        None => this,
    }
}

fn merge_i64(this: Option<i64>, other: Option<i64>, overwrite: bool) -> (r: Option<i64>)
    ensures
        r == merged(this, other, overwrite),
{
    if other.is_some() && (this.is_none() || overwrite) {
        other
    } else {
        this
    }
}

impl CityData {
    /// The city as a value.
    pub open spec fn view(&self) -> CityView {
        CityView {
            name: opt_view(self.name),
            iso: self.iso,
            cn_province: opt_view(self.cn_province),
            cn_city: opt_view(self.cn_city),
            cn_districts: opt_view(self.cn_districts),
        }
    }

    /// Nothing known.
    pub fn empty() -> (c: CityData)
        ensures
            c@ == city_empty(),
    {
        CityData { name: None, iso: None, cn_province: None, cn_city: None, cn_districts: None }
    }

    /// Takes over what another one knows, field by field.
    pub fn merge(&mut self, other: &CityData, overwrite: bool)
        ensures
            final(self)@ == city_merged(old(self)@, other@, overwrite),
    {
        let mut this = CityData::empty();
        std::mem::swap(self, &mut this);
        *self = CityData {
            name: merge_text(this.name, &other.name, overwrite),
            iso: merge_i64(this.iso, other.iso, overwrite),
            cn_province: merge_text(this.cn_province, &other.cn_province, overwrite),
            cn_city: merge_text(this.cn_city, &other.cn_city, overwrite),
            cn_districts: merge_text(this.cn_districts, &other.cn_districts, overwrite),
        };
    }

    /// A copy.
    pub fn copy(&self) -> (c: CityData)
        ensures
            c@ == self@,
    {
        CityData {
            name: clone_opt(&self.name),
            iso: self.iso,
            cn_province: clone_opt(&self.cn_province),
            cn_city: clone_opt(&self.cn_city),
            cn_districts: clone_opt(&self.cn_districts),
        }
    }
}

/// A city of which nothing is known.
pub open spec fn city_empty() -> CityView {
    CityView { name: None, iso: None, cn_province: None, cn_city: None, cn_districts: None }
}

/// Two cities merged field by field.
pub open spec fn city_merged(this: CityView, other: CityView, overwrite: bool) -> CityView {
    CityView {
        name: merged(this.name, other.name, overwrite),
        iso: merged(this.iso, other.iso, overwrite),
        cn_province: merged(this.cn_province, other.cn_province, overwrite),
        cn_city: merged(this.cn_city, other.cn_city, overwrite),
        cn_districts: merged(this.cn_districts, other.cn_districts, overwrite),
    }
}

impl CountryData {
    /// The country as a value.
    pub open spec fn view(&self) -> CountryView {
        CountryView { name: opt_view(self.name), iso: opt_view(self.iso) }
    }

    /// Takes over what another one knows, field by field.
    pub fn merge(&mut self, other: &CountryData, overwrite: bool)
        ensures
            final(self)@ == country_merged(old(self)@, other@, overwrite),
    {
        let mut this = CountryData { name: None, iso: None };
        std::mem::swap(self, &mut this);
        *self = CountryData {
            name: merge_text(this.name, &other.name, overwrite),
            iso: merge_text(this.iso, &other.iso, overwrite),
        };
    }

    /// A copy.
    pub fn copy(&self) -> (c: CountryData)
        ensures
            c@ == self@,
    {
        CountryData { name: clone_opt(&self.name), iso: clone_opt(&self.iso) }
    }
}

/// Two countries merged field by field.
pub open spec fn country_merged(this: CountryView, other: CountryView, overwrite: bool) -> CountryView {
    CountryView {
        name: merged(this.name, other.name, overwrite),
        iso: merged(this.iso, other.iso, overwrite),
    }
}

impl AsNetwork {
    /// The network as a value.
    pub open spec fn view(&self) -> AsNetworkView {
        AsNetworkView { ip_address: opt_view(self.ip_address), prefix_length: self.prefix_length }
    }

    /// Takes over what another one knows, field by field.
    pub fn merge_from(&mut self, other: &AsNetwork, overwrite: bool)
        ensures
            final(self)@ == as_network_merged(old(self)@, other@, overwrite),
    {
        let mut this = AsNetwork { ip_address: None, prefix_length: None };
        std::mem::swap(self, &mut this);
        let prefix_length = if other.prefix_length.is_some() && (this.prefix_length.is_none()
            || overwrite) {
            other.prefix_length
        } else {
            this.prefix_length
        };
        *self = AsNetwork {
            ip_address: merge_text(this.ip_address, &other.ip_address, overwrite),
            prefix_length,
        };
    }

    /// A copy.
    pub fn copy(&self) -> (c: AsNetwork)
        ensures
            c@ == self@,
    {
        AsNetwork { ip_address: clone_opt(&self.ip_address), prefix_length: self.prefix_length }
    }
}

/// Two networks merged field by field.
pub open spec fn as_network_merged(
    this: AsNetworkView,
    other: AsNetworkView,
    overwrite: bool,
) -> AsNetworkView {
    AsNetworkView {
        ip_address: merged(this.ip_address, other.ip_address, overwrite),
        prefix_length: merged(this.prefix_length, other.prefix_length, overwrite),
    }
}

/// A network, if any, as a value.
pub open spec fn as_network_view(o: Option<AsNetwork>) -> Option<AsNetworkView> {
    match o {
        Some(n) => Some(n@),
        None => None,
    }
}

impl AsData {
    /// The autonomous system as a value.
    pub open spec fn view(&self) -> AsView {
        AsView {
            number: self.number,
            organization: opt_view(self.organization),
            ip_address: opt_view(self.ip_address),
            network: as_network_view(self.network),
        }
    }

    /// Nothing known.
    pub fn empty() -> (a: AsData)
        ensures
            a@ == (AsView { number: None, organization: None, ip_address: None, network: None }),
    {
        AsData { number: None, organization: None, ip_address: None, network: None }
    }

    /// Takes over what another one knows, field by field; so do the networks.
    pub fn merge_from(&mut self, other: &AsData, overwrite: bool)
        ensures
            final(self)@ == as_merged(old(self)@, other@, overwrite),
    {
        let mut this = AsData::empty();
        std::mem::swap(self, &mut this);
        let network = match &other.network {
            None => this.network,
            Some(theirs) => match this.network {
                None => Some(theirs.copy()),
                Some(ours) => {
                    let mut ours = ours;
                    ours.merge_from(theirs, overwrite);
                    Some(ours)
                },
            },
        };
        *self = AsData {
            number: merge_i64(this.number, other.number, overwrite),
            organization: merge_text(this.organization, &other.organization, overwrite),
            ip_address: merge_text(this.ip_address, &other.ip_address, overwrite),
            network,
        };
    }

    /// A copy.
    pub fn copy(&self) -> (c: AsData)
        ensures
            c@ == self@,
    {
        AsData {
            number: self.number,
            organization: clone_opt(&self.organization),
            ip_address: clone_opt(&self.ip_address),
            network: match &self.network {
                Some(n) => Some(n.copy()),
                None => None,
            },
        }
    }
}

/// Two autonomous systems merged field by field; so are their networks.
pub open spec fn as_merged(this: AsView, other: AsView, overwrite: bool) -> AsView {
    AsView {
        number: merged(this.number, other.number, overwrite),
        organization: merged(this.organization, other.organization, overwrite),
        ip_address: merged(this.ip_address, other.ip_address, overwrite),
        network: match (this.network, other.network) {
            (Some(a), Some(b)) => Some(as_network_merged(a, b, overwrite)),
            (None, b) => b,
            (a, None) => a,
        },
    }
}

impl NetworkData {
    /// The network as a value.
    pub open spec fn view(&self) -> NetworkView {
        NetworkView { isp: opt_view(self.isp), net_type: opt_view(self.net_type) }
    }

    /// Takes over what another one knows, field by field.
    pub fn merge_from(&mut self, other: &NetworkData, overwrite: bool)
        ensures
            final(self)@ == network_merged(old(self)@, other@, overwrite),
    {
        let mut this = NetworkData { isp: None, net_type: None };
        std::mem::swap(self, &mut this);
        *self = NetworkData {
            isp: merge_text(this.isp, &other.isp, overwrite),
            net_type: merge_text(this.net_type, &other.net_type, overwrite),
        };
    }

    /// A copy.
    pub fn copy(&self) -> (c: NetworkData)
        ensures
            c@ == self@,
    {
        NetworkData { isp: clone_opt(&self.isp), net_type: clone_opt(&self.net_type) }
    }
}

/// Two provider's networks merged field by field.
pub open spec fn network_merged(this: NetworkView, other: NetworkView, overwrite: bool) -> NetworkView {
    NetworkView {
        isp: merged(this.isp, other.isp, overwrite),
        net_type: merged(this.net_type, other.net_type, overwrite),
    }
}

/// What is known of an address of which nothing is known.
pub open spec fn geo_empty() -> GeoView {
    GeoView { city: None, country: None, as_data: None, network: None }
}

impl Default for IpGeoData {
    fn default() -> (g: Self)
        ensures
            g@ == geo_empty(),
    {
        IpGeoData { city: None, country: None, as_data: None, network: None }
    }
}

impl IpGeoData {
    /// What is known, as a value.
    pub open spec fn view(&self) -> GeoView {
        GeoView {
            city: match self.city {
                Some(c) => Some(c@),
                None => None,
            },
            country: match self.country {
                Some(c) => Some(c@),
                None => None,
            },
            as_data: match self.as_data {
                Some(a) => Some(a@),
                None => None,
            },
            network: match self.network {
                Some(n) => Some(n@),
                None => None,
            },
        }
    }

    /// Takes over what is known elsewhere, part by part and field by field.
    pub fn merge_from(&mut self, other: &IpGeoData, overwrite: bool)
        ensures
            final(self)@ == geo_merged(old(self)@, other@, overwrite),
    {
        let mut this = IpGeoData::default();
        std::mem::swap(self, &mut this);
        let city = match &other.city {
            None => this.city,
            Some(theirs) => match this.city {
                None => Some(theirs.copy()),
                Some(ours) => {
                    let mut ours = ours;
                    ours.merge(theirs, overwrite);
                    Some(ours)
                },
            },
        };
        let country = match &other.country {
            None => this.country,
            Some(theirs) => match this.country {
                None => Some(theirs.copy()),
                Some(ours) => {
                    let mut ours = ours;
                    ours.merge(theirs, overwrite);
                    Some(ours)
                },
            },
        };
        let as_data = match &other.as_data {
            None => this.as_data,
            Some(theirs) => match this.as_data {
                None => Some(theirs.copy()),
                Some(ours) => {
                    let mut ours = ours;
                    ours.merge_from(theirs, overwrite);
                    Some(ours)
                },
            },
        };
        let network = match &other.network {
            None => this.network,
            Some(theirs) => match this.network {
                None => Some(theirs.copy()),
                Some(ours) => {
                    let mut ours = ours;
                    ours.merge_from(theirs, overwrite);
                    Some(ours)
                },
            },
        };
        *self = IpGeoData { city, country, as_data, network };
    }

    /// A copy.
    pub fn copy(&self) -> (g: IpGeoData)
        ensures
            g@ == self@,
    {
        let mut g = IpGeoData::default();
        g.merge_from(self, true);
        g
    }
}

/// What is known in two places, merged part by part and field by field.
pub open spec fn geo_merged(this: GeoView, other: GeoView, overwrite: bool) -> GeoView {
    GeoView {
        city: match (this.city, other.city) {
            (Some(a), Some(b)) => Some(city_merged(a, b, overwrite)),
            (None, b) => b,
            (a, None) => a,
        },
        country: match (this.country, other.country) {
            (Some(a), Some(b)) => Some(country_merged(a, b, overwrite)),
            (None, b) => b,
            (a, None) => a,
        },
        as_data: match (this.as_data, other.as_data) {
            (Some(a), Some(b)) => Some(as_merged(a, b, overwrite)),
            (None, b) => b,
            (a, None) => a,
        },
        network: match (this.network, other.network) {
            (Some(a), Some(b)) => Some(network_merged(a, b, overwrite)),
            (None, b) => b,
            (a, None) => a,
        },
    }
}

/// To merge nothing, or into nothing, changes nothing of what is known.
pub proof fn merging_nothing_changes_nothing(g: GeoView, overwrite: bool)
    ensures
        geo_merged(g, geo_empty(), overwrite) == g,
        geo_merged(geo_empty(), g, overwrite) == g,
{
}

/// To merge the same thing again changes nothing.
pub proof fn merging_again_changes_nothing(this: GeoView, other: GeoView, overwrite: bool)
    ensures
        geo_merged(geo_merged(this, other, overwrite), other, overwrite) == geo_merged(
            this,
            other,
            overwrite,
        ),
{
}

/// Which side takes precedence only turns the sides round: what one side overwrites the other
/// keeps.
pub proof fn overwriting_is_keeping_the_other(this: GeoView, other: GeoView)
    ensures
        geo_merged(this, other, true) == geo_merged(other, this, false),
{
}

// ------------------------------------------------------------------ the pieces of what is known
/// The texts that are known of an address, each in its place.
pub open spec fn known_texts(g: GeoView) -> Seq<Option<Seq<char>>> {
    seq![
        match g.city { Some(c) => c.name, None => None },
        match g.city { Some(c) => c.cn_province, None => None },
        match g.city { Some(c) => c.cn_city, None => None },
        match g.city { Some(c) => c.cn_districts, None => None },
        match g.country { Some(c) => c.name, None => None },
        match g.country { Some(c) => c.iso, None => None },
        match g.as_data { Some(a) => a.organization, None => None },
        match g.as_data { Some(a) => a.ip_address, None => None },
        match g.as_data {
            Some(a) => match a.network { Some(n) => n.ip_address, None => None },
            None => None,
        },
        match g.network { Some(n) => n.isp, None => None },
        match g.network { Some(n) => n.net_type, None => None },
    ]
}

/// The numbers that are known of an address, each in its place.
pub open spec fn known_numbers(g: GeoView) -> (Option<i64>, Option<i64>, Option<i32>) {
    (
        match g.city { Some(c) => c.iso, None => None },
        match g.as_data { Some(a) => a.number, None => None },
        match g.as_data {
            Some(a) => match a.network { Some(n) => n.prefix_length, None => None },
            None => None,
        },
    )
}

/// Of two answers, each piece is that of the first; where the first lacks it, or the second is to
/// overwrite it and has it, it is that of the second.
pub proof fn pieces_are_merged_one_by_one(this: GeoView, other: GeoView, i: int)
    requires
        0 <= i < 11,
    ensures
        ({
            let both = known_texts(geo_merged(this, other, false))[i];
            let over = known_texts(geo_merged(this, other, true))[i];
            let a = known_texts(this)[i];
            let b = known_texts(other)[i];
            &&& a is Some ==> both == a
            &&& a is None ==> both == b
            &&& b is Some ==> over == b
            &&& b is None ==> over == a
        }),
        ({
            let both = known_numbers(geo_merged(this, other, false));
            let over = known_numbers(geo_merged(this, other, true));
            let a = known_numbers(this);
            let b = known_numbers(other);
            &&& a.0 is Some ==> both.0 == a.0
            &&& a.1 is Some ==> both.1 == a.1
            &&& a.2 is Some ==> both.2 == a.2
            &&& a.0 is None ==> both.0 == b.0
            &&& a.1 is None ==> both.1 == b.1
            &&& a.2 is None ==> both.2 == b.2
            &&& b.0 is Some ==> over.0 == b.0
            &&& b.1 is Some ==> over.1 == b.1
            &&& b.2 is Some ==> over.2 == b.2
            &&& b.0 is None ==> over.0 == a.0
            &&& b.1 is None ==> over.1 == a.1
            &&& b.2 is None ==> over.2 == a.2
        }),
{
}

} // verus!
