//! The GeoIP databases and what they hold of an address.

use maxminddb::{geoip2, Reader};
use vstd::prelude::*;
use crate::division::{table_of, DivisionTable};
use crate::geo_data::{as_network_view, known_texts, pieces_are_merged_one_by_one};
use crate::geoip::{
    codes_are_compared_in_any_case,
    default_locale, default_locale_of, geo_cn, geo_cn_codes, geo_cn_data, geo_merged,
    name_for_locales, name_from, one_of, opt_views, show_name, shown_name, table_view, AsData,
    AsNetwork, AsNetworkView, AsView, CityData, CityView, CountryData, CountryView, GeoCnRecord,
    GeoCnView, GeoIpProvider, GeoView, IpGeoData, NetworkData, NetworkView, ASN_MMDB, CITY_MMDB,
    GEOCN_MMDB, GEOIP_DIR, GEOIP_DIVISION_CSV,
};
use crate::geoip_update::{join_path, joined};
use crate::i18n::{locale_key, normalize_locale};
use crate::net::{ip_text, ip_to_string, IpAddr};
use crate::text::{ascii_lower_of, clone_opt, opt_view, texts};

verus! {

// --------------------------------------------------------------------- lookups
/// What is wrong with the bytes of a database, if anything.
pub uninterp spec fn mmdb_problem(database: Seq<u8>) -> Option<Seq<char>>;

/// Opens a database with `maxminddb::Reader::from_source`: what is wrong with it, if anything,
/// which depends on its bytes alone.
#[verifier::external_body]
pub(crate) fn open_problem(database: &[u8]) -> (r: Option<String>)
    ensures
        opt_view(r) == mmdb_problem(database@),
{
    Reader::from_source(database).err().map(|e| e.to_string())
}

/// What a database holds of an address's autonomous system: a number and an organization.
pub uninterp spec fn asn_in(database: Seq<u8>, ip: IpAddr) -> Option<
    (Option<u32>, Option<Seq<char>>),
>;

/// Opens a database, looks an address up with `maxminddb::Reader::lookup` and decodes its record as
/// `maxminddb::geoip2::Asn`. `None` if any of that fails or there is no record. The result depends
/// on the database and the address alone.
#[verifier::external_body]
fn read_asn(database: &[u8], ip: IpAddr) -> (r: Option<(Option<u32>, Option<String>)>)
    ensures
        match r {
            Some((number, organization)) => asn_in(database@, ip) == Some(
                (number, opt_view(organization)),
            ),
            None => asn_in(database@, ip) is None,
        },
{
    let reader = Reader::from_source(database).ok()?;
    let address = match ip {
        IpAddr::V4(v) => v.to_be_bytes().into(),
        IpAddr::V6(v) => v.to_be_bytes().into(),
    };
    let found = reader.lookup(address).ok()?;
    let asn = found.decode::<geoip2::Asn>().ok()??;
    Some((asn.autonomous_system_number, asn.autonomous_system_organization.map(str::to_string)))
}

/// The network that a database's record of an address stands for: its address and prefix length.
pub uninterp spec fn network_in(database: Seq<u8>, ip: IpAddr) -> Option<(Seq<char>, u8)>;

/// Opens a database, looks an address up with `maxminddb::Reader::lookup` and gives the network of
/// the result (`maxminddb::LookupResult::network`). `None` if any of that fails. The result depends
/// on the database and the address alone.
#[verifier::external_body]
fn read_network(database: &[u8], ip: IpAddr) -> (r: Option<(String, u8)>)
    ensures
        match r {
            Some((address, prefix)) => network_in(database@, ip) == Some((address@, prefix)),
            None => network_in(database@, ip) is None,
        },
{
    let reader = Reader::from_source(database).ok()?;
    let address = match ip {
        IpAddr::V4(v) => v.to_be_bytes().into(),
        IpAddr::V6(v) => v.to_be_bytes().into(),
    };
    let found = reader.lookup(address).ok()?;
    let network = found.network().ok()?;
    Some((network.ip().to_string(), network.prefix()))
}

/// A record of a city or a country: its names, and its number or its code.
#[derive(Debug)]
pub struct PlaceRecord {
    pub names: Vec<Option<String>>,
    pub geoname_id: Option<u32>,
    pub iso: Option<String>,
}

/// A record of a city or a country as a value.
pub ghost struct PlaceView {
    pub names: Seq<Option<Seq<char>>>,
    pub geoname_id: Option<u32>,
    pub iso: Option<Seq<char>>,
}

impl PlaceRecord {
    /// The record as a value.
    pub open spec fn view(&self) -> PlaceView {
        PlaceView {
            names: opt_views(self.names@),
            geoname_id: self.geoname_id,
            iso: opt_view(self.iso),
        }
    }
}

/// What a database holds of an address's city: its names and its number.
pub uninterp spec fn city_in(database: Seq<u8>, ip: IpAddr) -> Option<PlaceView>;

/// Opens a database, looks an address up with `maxminddb::Reader::lookup`, decodes its record as
/// `maxminddb::geoip2::City` and gives the names of the city and its number. `None` if any of that
/// fails or there is no record. The result depends on the database and the address alone.
#[verifier::external_body]
fn read_city(database: &[u8], ip: IpAddr) -> (r: Option<PlaceRecord>)
    ensures
        match r {
            Some(record) => city_in(database@, ip) == Some(record@),
            None => city_in(database@, ip) is None,
        },
{
    let reader = Reader::from_source(database).ok()?;
    let address = match ip {
        IpAddr::V4(v) => v.to_be_bytes().into(),
        IpAddr::V6(v) => v.to_be_bytes().into(),
    };
    let city = reader.lookup(address).ok()?.decode::<geoip2::City>().ok()??.city;
    let n = city.names;
    let all = [n.english, n.simplified_chinese, n.german, n.spanish, n.french, n.japanese, n.brazilian_portuguese, n.russian];
    let names = all.map(|s| s.map(str::to_string)).to_vec();
    Some(PlaceRecord { names, geoname_id: city.geoname_id, iso: None })
}

/// What a database holds of an address's country: its names, its number and its code.
pub uninterp spec fn country_in(database: Seq<u8>, ip: IpAddr) -> Option<PlaceView>;

/// Opens a database, looks an address up with `maxminddb::Reader::lookup`, decodes its record as
/// `maxminddb::geoip2::City` and gives the names of the country, its number and its code. `None` if
/// any of that fails or there is no record. The result depends on the database and the address
/// alone.
#[verifier::external_body]
fn read_country(database: &[u8], ip: IpAddr) -> (r: Option<PlaceRecord>)
    ensures
        match r {
            Some(record) => country_in(database@, ip) == Some(record@),
            None => country_in(database@, ip) is None,
        },
{
    let reader = Reader::from_source(database).ok()?;
    let address = match ip {
        IpAddr::V4(v) => v.to_be_bytes().into(),
        IpAddr::V6(v) => v.to_be_bytes().into(),
    };
    let country = reader.lookup(address).ok()?.decode::<geoip2::City>().ok()??.country;
    let n = country.names;
    let all = [n.english, n.simplified_chinese, n.german, n.spanish, n.french, n.japanese, n.brazilian_portuguese, n.russian];
    let names = all.map(|s| s.map(str::to_string)).to_vec();
    Some(PlaceRecord { names, geoname_id: country.geoname_id, iso: country.iso_code.map(str::to_string) })
}

// ------------------------------------------------------------------- databases
/// Why databases could not be opened.
#[derive(Debug)]
pub enum GeoIpError {
    /// A file cannot be opened.
    Open { path: String, source: String },
}

/// The bytes of the databases, of which each may be missing, with the administrative divisions and
/// the languages in which names are wanted. `records` gives the record that GeoCN has of an address,
/// if it can be read.
#[derive(Debug)]
pub struct GeoIpDb<C: Fn(&Vec<u8>, IpAddr) -> Option<GeoCnRecord>> {
    city: Option<Vec<u8>>,
    asn: Option<Vec<u8>>,
    geo_cn: Option<Vec<u8>>,
    division: Option<DivisionTable>,
    locales: Vec<String>,
    records: C,
}

/// Whether the record of any address may be asked for.
pub open spec fn reads_records<C: Fn(&Vec<u8>, IpAddr) -> Option<GeoCnRecord>>(records: C) -> bool {
    forall|database: &Vec<u8>, ip: IpAddr| records.requires((database, ip))
}

/// Databases as values.
pub ghost struct GeoIpDbView {
    pub city: Option<Seq<u8>>,
    pub asn: Option<Seq<u8>>,
    pub geo_cn: Option<Seq<u8>>,
    pub division: Option<Map<Seq<char>, Seq<char>>>,
    pub locales: Seq<Seq<char>>,
}

/// Bytes, if any, as a value.
pub open spec fn bytes_view(o: Option<Vec<u8>>) -> Option<Seq<u8>> {
    match o {
        Some(b) => Some(b@),
        None => None,
    }
}

/// The languages that are tried: those given, or English where none is.
pub open spec fn languages(locales: Seq<Seq<char>>) -> Seq<Seq<char>> {
    if locales.len() == 0 {
        seq!["en"@]
    } else {
        locales
    }
}

/// What is known of an address's autonomous system.
pub open spec fn as_data_of(db: GeoIpDbView, ip: IpAddr) -> Option<AsView> {
    match db.asn {
        None => None,
        Some(asn) => match asn_in(asn, ip) {
            None => None,
            Some((number, organization)) => Some(
                AsView {
                    number: match number {
                        Some(n) => Some(n as i64),
                        None => None,
                    },
                    organization,
                    ip_address: Some(ip_text(ip)),
                    network: network_view(asn, ip),
                },
            ),
        },
    }
}

/// The network that a record of an address stands for.
pub open spec fn network_view(database: Seq<u8>, ip: IpAddr) -> Option<AsNetworkView> {
    match network_in(database, ip) {
        Some((address, prefix)) => Some(
            AsNetworkView { ip_address: Some(address), prefix_length: Some(prefix as i32) },
        ),
        None => None,
    }
}

/// The language that decides how regions are shown: the first.
pub open spec fn first_language(locales: Seq<Seq<char>>) -> Seq<char> {
    if locales.len() > 0 {
        locale_key(locales[0])
    } else {
        Seq::empty()
    }
}

/// What a record of a country tells.
pub open spec fn country_of(record: PlaceView, locales: Seq<Seq<char>>) -> CountryView {
    CountryView {
        name: shown_name(
            name_from(record.names, locales, 0),
            record.iso,
            first_language(locales),
        ),
        iso: record.iso,
    }
}

/// What a record of a city tells.
pub open spec fn city_of(record: PlaceView, locales: Seq<Seq<char>>) -> CityView {
    CityView {
        name: name_from(record.names, locales, 0),
        iso: match record.geoname_id {
            Some(n) => Some(n as i64),
            None => None,
        },
        cn_province: None,
        cn_city: None,
        cn_districts: None,
    }
}

/// What is known of an address's city.
pub open spec fn city_known(db: GeoIpDbView, ip: IpAddr) -> Option<CityView> {
    match db.city {
        None => None,
        Some(database) => match city_in(database, ip) {
            Some(record) => Some(city_of(record, db.locales)),
            None => None,
        },
    }
}

/// What is known of an address's country.
pub open spec fn country_known(db: GeoIpDbView, ip: IpAddr) -> Option<CountryView> {
    match db.city {
        None => None,
        Some(database) => match country_in(database, ip) {
            Some(record) => Some(country_of(record, db.locales)),
            None => None,
        },
    }
}

/// What the databases of city and autonomous system tell of an address.
pub open spec fn base_of(db: GeoIpDbView, ip: IpAddr) -> GeoView {
    GeoView {
        city: city_known(db, ip),
        country: country_known(db, ip),
        as_data: as_data_of(db, ip),
        network: match as_data_of(db, ip) {
            Some(a) => Some(NetworkView { isp: a.organization, net_type: None }),
            None => None,
        },
    }
}

/// Whether GeoCN is asked for an address: it is there, and the address is one of China, Taiwan, Hong
/// Kong or Macao.
pub open spec fn asks_geo_cn(db: GeoIpDbView, ip: IpAddr) -> bool {
    let country = country_known(db, ip);
    &&& db.geo_cn is Some
    &&& country is Some
    &&& country->0.iso is Some
    &&& one_of(country->0.iso->0, geo_cn_codes())
}

/// What GeoCN tells of an address, given its record of it.
pub open spec fn geo_cn_of(db: GeoIpDbView, ip: IpAddr, record: Option<GeoCnView>) -> Option<GeoView> {
    match (db.geo_cn, record) {
        (Some(database), Some(found)) => geo_cn(found, db.division, network_view(database, ip)),
        _ => None,
    }
}

/// What is known of an address, given the record that GeoCN has of it: where GeoCN is asked, what it
/// tells takes precedence.
pub open spec fn geo_of(db: GeoIpDbView, ip: IpAddr, record: Option<GeoCnView>) -> GeoView {
    let base = base_of(db, ip);
    if asks_geo_cn(db, ip) && geo_cn_of(db, ip, record) is Some {
        geo_merged(base, geo_cn_of(db, ip, record)->0, true)
    } else {
        base
    }
}

/// A record, if there is one, as a value.
pub open spec fn record_view(record: Option<GeoCnRecord>) -> Option<GeoCnView> {
    match record {
        Some(r) => Some(r@),
        None => None,
    }
}

/// Whether a record may be what GeoCN has of an address; where it is not asked there is none.
pub open spec fn record_read<C: Fn(&Vec<u8>, IpAddr) -> Option<GeoCnRecord>>(
    records: C,
    db: GeoIpDbView,
    ip: IpAddr,
    record: Option<GeoCnRecord>,
) -> bool {
    if asks_geo_cn(db, ip) {
        exists|database: Vec<u8>|
            Some(database@) == db.geo_cn && #[trigger] records.ensures((&database, ip), record)
    } else {
        record is None
    }
}

/// Whether something may be what is known of an address.
pub open spec fn geo_known<C: Fn(&Vec<u8>, IpAddr) -> Option<GeoCnRecord>>(
    records: C,
    db: GeoIpDbView,
    ip: IpAddr,
    g: GeoView,
) -> bool {
    exists|record: Option<GeoCnRecord>| #[trigger]
        record_read(records, db, ip, record) && g == geo_of(db, ip, record_view(record))
}

/// Whether `r` is what became of opening the database at a path: what `read` gives of the file, if
/// it opens as a database. Without a path there is no database.
pub open spec fn opened<R: Fn(&String) -> Result<Vec<u8>, String>>(
    read: R,
    path: Option<&String>,
    r: Result<Option<Vec<u8>>, GeoIpError>,
) -> bool {
    match path {
        None => r == Ok::<Option<Vec<u8>>, GeoIpError>(None),
        Some(p) => exists|file: Result<Vec<u8>, String>| #[trigger]
            read.ensures((p,), file) && match file {
                Err(e) => r == Err::<Option<Vec<u8>>, GeoIpError>(
                    GeoIpError::Open { path: *p, source: e },
                ),
                Ok(bytes) => match mmdb_problem(bytes@) {
                    Some(problem) => {
                        &&& r matches Err(GeoIpError::Open { path, source })
                        &&& path == *p
                        &&& source@ == problem
                    },
                    None => r == Ok::<Option<Vec<u8>>, GeoIpError>(Some(bytes)),
                },
            },
    }
}

fn open_reader<R: Fn(&String) -> Result<Vec<u8>, String>>(path: Option<&String>, read: &R) -> (r:
    Result<Option<Vec<u8>>, GeoIpError>)
    requires
        forall|p: &String| read.requires((p,)),
    ensures
        opened(*read, path, r),
{
    match path {
        None => Ok(None),
        Some(p) => {
            let file = read(p);
            let ghost file_ = file;
            assert(read.ensures((p,), file_));
            match file {
                Err(source) => Err(GeoIpError::Open { path: p.clone(), source }),
                Ok(bytes) => match open_problem(bytes.as_slice()) {
                    Some(source) => Err(GeoIpError::Open { path: p.clone(), source }),
                    None => Ok(Some(bytes)),
                },
            }
        },
    }
}

/// Whether `r` is what became of opening databases in turn: the first that cannot be opened is an
/// error that tells its path.
pub open spec fn opened_in_turn<
    R: Fn(&String) -> Result<Vec<u8>, String>,
    C: Fn(&Vec<u8>, IpAddr) -> Option<GeoCnRecord>,
>(
    read: R,
    records: C,
    city: Option<&String>,
    asn: Option<&String>,
    geo_cn: Option<&String>,
    locales: Seq<Seq<char>>,
    r: Result<GeoIpDb<C>, GeoIpError>,
) -> bool {
    exists|c: Result<Option<Vec<u8>>, GeoIpError>| #[trigger]
        opened(read, city, c) && match c {
            Err(e) => r == Err::<GeoIpDb<C>, GeoIpError>(e),
            Ok(city_bytes) => exists|a: Result<Option<Vec<u8>>, GeoIpError>| #[trigger]
                opened(read, asn, a) && match a {
                    Err(e) => r == Err::<GeoIpDb<C>, GeoIpError>(e),
                    Ok(asn_bytes) => exists|g: Result<Option<Vec<u8>>, GeoIpError>| #[trigger]
                        opened(read, geo_cn, g) && match g {
                            Err(e) => r == Err::<GeoIpDb<C>, GeoIpError>(e),
                            Ok(geo_cn_bytes) => {
                                &&& r matches Ok(db)
                                &&& db.records() == records
                                &&& db@ == (GeoIpDbView {
                                    city: bytes_view(city_bytes),
                                    asn: bytes_view(asn_bytes),
                                    geo_cn: bytes_view(geo_cn_bytes),
                                    division: None,
                                    locales: languages(locales),
                                })
                            },
                        },
                },
        }
}

/// Whether a table may be the one that the text of a file spells, if there is such a file.
pub open spec fn division_at<D: Fn(&String) -> Option<String>>(
    text: D,
    path: Seq<char>,
    table: Option<Map<Seq<char>, Seq<char>>>,
) -> bool {
    exists|p: String, found: Option<String>|
        {
            &&& p@ == path
            &&& #[trigger] text.ensures((&p,), found)
            &&& table == (match found {
                Some(t) => table_of(t@),
                None => None,
            })
        }
}

fn read_division<D: Fn(&String) -> Option<String>>(directory: &str, text: &D) -> (table: Option<
    DivisionTable,
>)
    requires
        forall|p: &String| text.requires((p,)),
    ensures
        division_at(*text, joined(directory@, GEOIP_DIVISION_CSV@), table_view(table)),
{
    let path = join_path(directory, GEOIP_DIVISION_CSV);
    let found = text(&path);
    let ghost found_ = found;
    assert(text.ensures((&path,), found_));
    match found {
        Some(t) => DivisionTable::load(t.as_str()),
        None => None,
    }
}

/// Whether `r` is what became of loading a directory: all three databases have to be there, and the
/// administrative divisions are those next to the databases or, without them, those of the
/// directory.
pub open spec fn loaded<
    R: Fn(&String) -> Result<Vec<u8>, String>,
    D: Fn(&String) -> Option<String>,
    C: Fn(&Vec<u8>, IpAddr) -> Option<GeoCnRecord>,
>(
    read: R,
    text: D,
    records: C,
    ipdb_dir: Seq<char>,
    locales: Seq<Seq<char>>,
    r: Result<GeoIpDb<C>, GeoIpError>,
) -> bool {
    let directory = joined(ipdb_dir, GEOIP_DIR@);
    exists|city: String, asn: String, geo_cn: String, files: Result<GeoIpDb<C>, GeoIpError>|
        {
            &&& city@ == joined(directory, CITY_MMDB@)
            &&& asn@ == joined(directory, ASN_MMDB@)
            &&& geo_cn@ == joined(directory, GEOCN_MMDB@)
            &&& #[trigger] opened_in_turn(
                read,
                records,
                Some(&city),
                Some(&asn),
                Some(&geo_cn),
                locales,
                files,
            )
            &&& match files {
                Err(e) => r == Err::<GeoIpDb<C>, GeoIpError>(e),
                Ok(db) => {
                    &&& r matches Ok(full)
                    &&& full.records() == records
                    &&& full@ == (GeoIpDbView { division: full@.division, ..db@ })
                    &&& {
                        ||| full@.division is Some && division_at(
                            text,
                            joined(directory, GEOIP_DIVISION_CSV@),
                            full@.division,
                        )
                        ||| {
                            &&& division_at(text, joined(directory, GEOIP_DIVISION_CSV@), None)
                            &&& division_at(
                                text,
                                joined(ipdb_dir, GEOIP_DIVISION_CSV@),
                                full@.division,
                            )
                        }
                    }
                },
            }
        }
}

impl<C: Fn(&Vec<u8>, IpAddr) -> Option<GeoCnRecord>> GeoIpDb<C> {
    #[verifier::type_invariant]
    spec fn inv(&self) -> bool {
        reads_records(self.records)
    }

    /// How the records of GeoCN are read.
    pub closed spec fn records(&self) -> C {
        self.records
    }

    /// The databases as values.
    pub closed spec fn view(&self) -> GeoIpDbView {
        GeoIpDbView {
            city: bytes_view(self.city),
            asn: bytes_view(self.asn),
            geo_cn: bytes_view(self.geo_cn),
            division: table_view(self.division),
            locales: texts(self.locales@),
        }
    }

    /// Opens the databases at paths in turn; the first that cannot be opened is an error. `read`
    /// gives the bytes of a file.
    pub fn open_files<R: Fn(&String) -> Result<Vec<u8>, String>>(
        city: Option<&String>,
        asn: Option<&String>,
        geo_cn: Option<&String>,
        locales: Vec<String>,
        read: &R,
        records: C,
    ) -> (r: Result<Self, GeoIpError>)
        requires
            forall|p: &String| read.requires((p,)),
            reads_records(records),
        ensures
            opened_in_turn(*read, records, city, asn, geo_cn, texts(locales@), r),
    {
        let c = open_reader(city, read);
        assert(opened(*read, city, c));
        let city_bytes = match c {
            Ok(bytes) => bytes,
            Err(e) => return Err(e),
        };
        let a = open_reader(asn, read);
        assert(opened(*read, asn, a));
        let asn_bytes = match a {
            Ok(bytes) => bytes,
            Err(e) => return Err(e),
        };
        let g = open_reader(geo_cn, read);
        assert(opened(*read, geo_cn, g));
        let geo_cn_bytes = match g {
            Ok(bytes) => bytes,
            Err(e) => return Err(e),
        };
        let mut locales = locales;
        if locales.len() == 0 {
            locales.push("en".to_string());
            assert(texts(locales@) =~= seq!["en"@]);
        }
        Ok(
            GeoIpDb {
                city: city_bytes,
                asn: asn_bytes,
                geo_cn: geo_cn_bytes,
                division: None,
                locales,
                records,
            },
        )
    }

    /// Loads the databases of a directory in some languages. `read` gives the bytes of a file, and
    /// `text` the text of one, if it is there.
    pub fn load_with_locales<
        R: Fn(&String) -> Result<Vec<u8>, String>,
        D: Fn(&String) -> Option<String>,
    >(ipdb_dir: &str, locales: Vec<String>, read: &R, text: &D, records: C) -> (r: Result<
        Self,
        GeoIpError,
    >)
        requires
            forall|p: &String| read.requires((p,)),
            forall|p: &String| text.requires((p,)),
            reads_records(records),
        ensures
            loaded(*read, *text, records, ipdb_dir@, texts(locales@), r),
    {
        let ghost languages = texts(locales@);
        let directory = join_path(ipdb_dir, GEOIP_DIR);
        let city = join_path(directory.as_str(), CITY_MMDB);
        let asn = join_path(directory.as_str(), ASN_MMDB);
        let geo_cn = join_path(directory.as_str(), GEOCN_MMDB);
        let files = GeoIpDb::open_files(
            Some(&city),
            Some(&asn),
            Some(&geo_cn),
            locales,
            read,
            records,
        );
        assert(opened_in_turn(
            *read,
            records,
            Some(&city),
            Some(&asn),
            Some(&geo_cn),
            languages,
            files,
        ));
        let db = match files {
            Ok(db) => db,
            Err(e) => return Err(e),
        };
        let first = read_division(directory.as_str(), text);
        if first.is_some() {
            return Ok(db.with_division(first, None));
        }
        let second = read_division(ipdb_dir, text);
        Ok(db.with_division(None, second))
    }

    /// Loads the databases of a directory in the language of the environment, or else in English.
    pub fn load<
        R: Fn(&String) -> Result<Vec<u8>, String>,
        D: Fn(&String) -> Option<String>,
        E: Fn(&String) -> Option<String>,
    >(ipdb_dir: &str, read: &R, text: &D, records: C, env: &E) -> (r: Result<Self, GeoIpError>)
        requires
            forall|p: &String| read.requires((p,)),
            forall|p: &String| text.requires((p,)),
            reads_records(records),
            forall|name: &String| env.requires((name,)),
        ensures
            exists|locale: Seq<char>| #[trigger]
                default_locale_of(*env, locale) && loaded(
                    *read,
                    *text,
                    records,
                    ipdb_dir@,
                    seq![locale, "en"@],
                    r,
                ),
    {
        let locale = default_locale(env);
        let ghost key = locale@;
        let mut locales: Vec<String> = Vec::new();
        locales.push(locale);
        locales.push("en".to_string());
        assert(texts(locales@) =~= seq![key, "en"@]);
        assert(default_locale_of(*env, key));
        GeoIpDb::load_with_locales(ipdb_dir, locales, read, text, records)
    }

    /// Sets the administrative divisions: the first of two tables that there is.
    pub fn with_division(self, first: Option<DivisionTable>, second: Option<DivisionTable>) -> (db:
        Self)
        ensures
            db.records() == self.records(),
            db@ == (GeoIpDbView {
                division: if first is Some {
                    table_view(first)
                } else {
                    table_view(second)
                },
                ..self@
            }),
    {
        proof {
            use_type_invariant(&self);
        }
        let division = match first {
            Some(t) => Some(t),
            None => second,
        };
        GeoIpDb {
            city: self.city,
            asn: self.asn,
            geo_cn: self.geo_cn,
            division,
            locales: self.locales,
            records: self.records,
        }
    }

    fn query_as(&self, ip: IpAddr) -> (r: Option<AsData>)
        ensures
            match r {
                Some(a) => as_data_of(self@, ip) == Some(a@),
                None => as_data_of(self@, ip) is None,
            },
    {
        let database = match &self.asn {
            Some(b) => b.as_slice(),
            None => return None,
        };
        let (number, organization) = match read_asn(database, ip) {
            Some(found) => found,
            None => return None,
        };
        let number = match number {
            Some(n) => Some(n as i64),
            None => None,
        };
        Some(
            AsData {
                number,
                organization,
                ip_address: Some(ip_to_string(&ip)),
                network: network_of(database, ip),
            },
        )
    }

    fn query_city(&self, ip: IpAddr) -> (r: Option<CityData>)
        ensures
            match r {
                Some(c) => city_known(self@, ip) == Some(c@),
                None => city_known(self@, ip) is None,
            },
    {
        match &self.city {
            Some(database) => match read_city(database.as_slice(), ip) {
                Some(record) => Some(city_data(&record, &self.locales)),
                None => None,
            },
            None => None,
        }
    }

    fn query_country(&self, ip: IpAddr) -> (r: Option<CountryData>)
        ensures
            match r {
                Some(c) => country_known(self@, ip) == Some(c@),
                None => country_known(self@, ip) is None,
            },
    {
        match &self.city {
            Some(database) => match read_country(database.as_slice(), ip) {
                Some(record) => Some(country_data(&record, &self.locales)),
                None => None,
            },
            None => None,
        }
    }

    fn query_geo_cn(&self, ip: IpAddr, record: &Option<GeoCnRecord>) -> (r: Option<IpGeoData>)
        ensures
            match r {
                Some(g) => geo_cn_of(self@, ip, record_view(*record)) == Some(g@),
                None => geo_cn_of(self@, ip, record_view(*record)) is None,
            },
    {
        match (&self.geo_cn, record) {
            (Some(database), Some(found)) => geo_cn_data(
                found,
                &self.division,
                network_of(database.as_slice(), ip),
            ),
            _ => None,
        }
    }

    /// What is known of an address.
    pub fn query_geo(&self, ip: IpAddr) -> (g: IpGeoData)
        ensures
            geo_known(self.records(), self@, ip, g@),
    {
        let city = self.query_city(ip);
        let country = self.query_country(ip);
        let as_data = self.query_as(ip);
        let network = match &as_data {
            Some(a) => Some(NetworkData { isp: clone_opt(&a.organization), net_type: None }),
            None => None,
        };
        let special = match &country {
            Some(c) => match &c.iso {
                Some(iso) => crate::geoip::in_geo_cn(iso.as_str()),
                None => false,
            },
            None => false,
        };
        let mut geo = IpGeoData { city, country, as_data, network };
        assert(geo@ == base_of(self@, ip));
        let mut record: Option<GeoCnRecord> = None;
        if special {
            if let Some(database) = &self.geo_cn {
                proof {
                    use_type_invariant(self);
                }
                record = (self.records)(database, ip);
                assert(self.records().ensures((database, ip), record));
                if let Some(data) = self.query_geo_cn(ip, &record) {
                    geo.merge_from(&data, true);
                }
            }
        }
        proof {
            assert(record_read(self.records(), self@, ip, record));
            assert(geo@ == geo_of(self@, ip, record_view(record)));
        }
        geo
    }
}

fn network_of(database: &[u8], ip: IpAddr) -> (r: Option<AsNetwork>)
    ensures
        as_network_view(r) == network_view(database@, ip),
{
    match read_network(database, ip) {
        Some((address, prefix)) => Some(
            AsNetwork { ip_address: Some(address), prefix_length: Some(prefix as i32) },
        ),
        None => None,
    }
}

/// What a record of a city tells.
pub fn city_data(record: &PlaceRecord, locales: &Vec<String>) -> (c: CityData)
    ensures
        c@ == city_of(record@, texts(locales@)),
{
    CityData {
        name: name_for_locales(&record.names, locales),
        iso: match record.geoname_id {
            Some(n) => Some(n as i64),
            None => None,
        },
        cn_province: None,
        cn_city: None,
        cn_districts: None,
    }
}

/// What a record of a country tells.
pub fn country_data(record: &PlaceRecord, locales: &Vec<String>) -> (c: CountryData)
    ensures
        c@ == country_of(record@, texts(locales@)),
{
    let name = name_for_locales(&record.names, locales);
    let code = if locales.len() > 0 {
        assert(texts(locales@)[0] == locales@[0]@);
        normalize_locale(locales[0].as_str())
    } else {
        String::new()
    };
    assert(code@ =~= first_language(texts(locales@)));
    let name = show_name(name, &record.iso, code.as_str());
    CountryData { name, iso: clone_opt(&record.iso) }
}

impl<C: Fn(&Vec<u8>, IpAddr) -> Option<GeoCnRecord>> GeoIpProvider for GeoIpDb<C> {
    fn query(&self, ip: IpAddr) -> (r: Option<IpGeoData>)
        ensures
            r matches Some(g) && geo_known(self.records(), self@, ip, g@),
    {
        Some(self.query_geo(ip))
    }
}

/// Without a database nothing is known of any address.
pub proof fn missing_databases_know_nothing(
    db: GeoIpDbView,
    ip: IpAddr,
    record: Option<GeoCnView>,
)
    requires
        db.city is None,
        db.asn is None,
    ensures
        geo_of(db, ip, record) == crate::geoip::geo_empty(),
{
}

// ------------------------------------------------------------------ laws of lookups
/// What an address belongs to is told as the database has it: the number, the organization, the
/// address itself and its network; the organization is the provider as well.
pub proof fn systems_are_told_as_they_are(
    db: GeoIpDbView,
    ip: IpAddr,
    record: Option<GeoCnView>,
    asn: Seq<u8>,
    number: Option<u32>,
    organization: Option<Seq<char>>,
)
    requires
        db.asn == Some(asn),
        asn_in(asn, ip) == Some((number, organization)),
        db.geo_cn is None,
    ensures
        geo_of(db, ip, record).as_data matches Some(a) && {
            &&& number matches Some(n) ==> (a.number matches Some(m) && m == n)
            &&& number is None ==> a.number is None
            &&& a.organization == organization
            &&& a.ip_address == Some(ip_text(ip))
            &&& network_in(asn, ip) is None ==> a.network is None
            &&& network_in(asn, ip) matches Some((address, prefix)) ==> (a.network matches Some(n)
                && n.ip_address == Some(address) && (n.prefix_length matches Some(p) && p
                == prefix))
        },
        geo_of(db, ip, record).network matches Some(w) && w.isp == organization
            && w.net_type is None,
{
}

/// A city is told by its number and by its name in the first of the languages that has one, and a
/// country by its code and its name.
pub proof fn places_are_told_as_they_are(
    db: GeoIpDbView,
    ip: IpAddr,
    record: Option<GeoCnView>,
    city: Seq<u8>,
)
    requires
        db.city == Some(city),
        db.geo_cn is None,
    ensures
        city_in(city, ip) matches Some(place) ==> (geo_of(db, ip, record).city matches Some(c) && {
            &&& place.geoname_id matches Some(n) ==> (c.iso matches Some(m) && m == n)
            &&& place.geoname_id is None ==> c.iso is None
            &&& c.name == name_from(place.names, db.locales, 0)
            &&& c.cn_province is None && c.cn_city is None && c.cn_districts is None
        }),
        city_in(city, ip) is None ==> geo_of(db, ip, record).city is None,
        country_in(city, ip) matches Some(place) ==> (geo_of(db, ip, record).country matches Some(c)
            && {
            &&& c.iso == place.iso
            &&& db.locales.len() > 0 ==> c.name == shown_name(
                name_from(place.names, db.locales, 0),
                place.iso,
                locale_key(db.locales[0]),
            )
        }),
        country_in(city, ip) is None ==> geo_of(db, ip, record).country is None,
{
}

/// GeoCN is asked exactly where it is there and the country has one of the codes `CN`, `TW`, `HK`
/// and `MO` in any case, and each piece that it knows comes before what the other databases say.
pub proof fn details_of_china_come_first(
    db: GeoIpDbView,
    ip: IpAddr,
    record: GeoCnView,
    i: int,
)
    requires
        0 <= i < 11,
    ensures
        asks_geo_cn(db, ip) == (db.geo_cn is Some && (country_known(db, ip) matches Some(c)
            && c.iso matches Some(iso) && {
            let low = ascii_lower_of(iso);
            low == "cn"@ || low == "tw"@ || low == "hk"@ || low == "mo"@
        })),
        !asks_geo_cn(db, ip) ==> geo_of(db, ip, Some(record)) == geo_of(
            GeoIpDbView { geo_cn: None, ..db },
            ip,
            None,
        ),
        asks_geo_cn(db, ip) ==> ({
            let found = geo_cn(record, db.division, network_view(db.geo_cn->0, ip));
            let plain = geo_of(GeoIpDbView { geo_cn: None, ..db }, ip, None);
            let all = geo_of(db, ip, Some(record));
            &&& found is None ==> all == plain
            &&& found matches Some(g) ==> {
                &&& known_texts(g)[i] is Some ==> known_texts(all)[i] == known_texts(g)[i]
                &&& known_texts(g)[i] is None ==> known_texts(all)[i] == known_texts(plain)[i]
            }
        }),
{
    if let Some(c) = country_known(db, ip) {
        if let Some(iso) = c.iso {
            codes_are_compared_in_any_case(iso);
        }
    }
    if asks_geo_cn(db, ip) {
        if let Some(g) = geo_cn(record, db.division, network_view(db.geo_cn->0, ip)) {
            pieces_are_merged_one_by_one(base_of(db, ip), g, i);
        }
    }
}

/// Without a chosen language names are in English.
pub proof fn names_are_english_by_default(locales: Seq<Seq<char>>)
    ensures
        locales.len() == 0 ==> languages(locales) == seq!["en"@],
        locales.len() > 0 ==> languages(locales) == locales,
{
}

/// A database that is not named is none; one that is named is what its file holds, unless the file
/// cannot be read or opened, which is told with its path.
pub proof fn databases_are_what_their_files_hold<R: Fn(&String) -> Result<Vec<u8>, String>>(
    read: R,
    path: String,
    r: Result<Option<Vec<u8>>, GeoIpError>,
)
    ensures
        opened(read, None, r) == (r == Ok::<Option<Vec<u8>>, GeoIpError>(None)),
        opened(read, Some(&path), r) ==> match r {
            Ok(Some(bytes)) => mmdb_problem(bytes@) is None && read.ensures((&path,), Ok(bytes)),
            Ok(None) => false,
            Err(GeoIpError::Open { path: p, source }) => p == path && ({
                ||| read.ensures((&path,), Err(source))
                ||| exists|bytes: Vec<u8>| #[trigger]
                    read.ensures((&path,), Ok(bytes)) && mmdb_problem(bytes@) == Some(source@)
            }),
        },
{
}

} // verus!
