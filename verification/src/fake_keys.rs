//! The catalog's key table.
//!
//! `FakeKeys` holds every key the value catalog understands.  The template
//! machinery asks it whether a placeholder's key is known before calling the
//! catalog; an unknown key is a template error.  The table holds exactly the
//! keys the catalog accepts: membership coincides with [`spec_known_key`].

use vstd::prelude::*;
use vstd::string::StringExecFns;
use crate::value::str_eq;
use crate::provider::spec_known_key;

verus! {

/// One block of the catalog order.
pub open spec fn spec_key_block_0(j: int) -> Seq<char> {
    if j == 0 {
        "address.cityPrefix"@
    } else if j == 1 {
        "address.citySuffix"@
    } else if j == 2 {
        "address.cityName"@
    } else if j == 3 {
        "address.countryName"@
    } else if j == 4 {
        "address.countryCode"@
    } else if j == 5 {
        "address.streetSuffix"@
    } else if j == 6 {
        "address.streetName"@
    } else if j == 7 {
        "address.timeZone"@
    } else if j == 8 {
        "address.stateName"@
    } else if j == 9 {
        "address.stateAbbr"@
    } else if j == 10 {
        "address.secondaryAddressType"@
    } else if j == 11 {
        "address.secondaryAddress"@
    } else if j == 12 {
        "address.zipCode"@
    } else {
        Seq::empty()
    }
}

/// One block of the catalog order.
pub open spec fn spec_key_block_1(j: int) -> Seq<char> {
    if j == 0 {
        "address.postCode"@
    } else if j == 1 {
        "address.buildingNumber"@
    } else if j == 2 {
        "address.latitude"@
    } else if j == 3 {
        "address.longitude"@
    } else if j == 4 {
        "address.geohash"@
    } else if j == 5 {
        "barcode.isbn"@
    } else if j == 6 {
        "barcode.isbn10"@
    } else if j == 7 {
        "barcode.isbn13"@
    } else if j == 8 {
        "boolean.boolean"@
    } else if j == 9 {
        "color.hexColor"@
    } else if j == 10 {
        "color.rgbColor"@
    } else if j == 11 {
        "color.rgbaColor"@
    } else if j == 12 {
        "color.hslColor"@
    } else {
        Seq::empty()
    }
}

/// One block of the catalog order.
pub open spec fn spec_key_block_2(j: int) -> Seq<char> {
    if j == 0 {
        "color.hslaColor"@
    } else if j == 1 {
        "color.color"@
    } else if j == 2 {
        "chrono.time"@
    } else if j == 3 {
        "chrono.date"@
    } else if j == 4 {
        "chrono.dateTime"@
    } else if j == 5 {
        "chrono.duration"@
    } else if j == 6 {
        "chrono.dateTimeBefore"@
    } else if j == 7 {
        "chrono.dateTimeAfter"@
    } else if j == 8 {
        "chrono.dateTimeBetween"@
    } else if j == 9 {
        "time.time"@
    } else if j == 10 {
        "time.date"@
    } else if j == 11 {
        "time.dateTime"@
    } else if j == 12 {
        "time.duration"@
    } else {
        Seq::empty()
    }
}

/// One block of the catalog order.
pub open spec fn spec_key_block_3(j: int) -> Seq<char> {
    if j == 0 {
        "time.dateTimeBefore"@
    } else if j == 1 {
        "time.dateTimeAfter"@
    } else if j == 2 {
        "time.dateTimeBetween"@
    } else if j == 3 {
        "creditcard.creditCardNumber"@
    } else if j == 4 {
        "company.companySuffix"@
    } else if j == 5 {
        "company.companyName"@
    } else if j == 6 {
        "company.buzzword"@
    } else if j == 7 {
        "company.buzzwordMiddle"@
    } else if j == 8 {
        "company.buzzwordTail"@
    } else if j == 9 {
        "company.catchPhrase"@
    } else if j == 10 {
        "company.bsVerb"@
    } else if j == 11 {
        "company.bsAdj"@
    } else if j == 12 {
        "company.bsNoun"@
    } else {
        Seq::empty()
    }
}

/// One block of the catalog order.
pub open spec fn spec_key_block_4(j: int) -> Seq<char> {
    if j == 0 {
        "company.bs"@
    } else if j == 1 {
        "company.profession"@
    } else if j == 2 {
        "company.industry"@
    } else if j == 3 {
        "http.rfcStatusCode"@
    } else if j == 4 {
        "http.validStatusCode"@
    } else if j == 5 {
        "internet.freeEmailProvider"@
    } else if j == 6 {
        "internet.domainSuffix"@
    } else if j == 7 {
        "internet.freeEmail"@
    } else if j == 8 {
        "internet.safeEmail"@
    } else if j == 9 {
        "internet.username"@
    } else if j == 10 {
        "internet.password"@
    } else if j == 11 {
        "internet.IPv4"@
    } else if j == 12 {
        "internet.IPv6"@
    } else {
        Seq::empty()
    }
}

/// One block of the catalog order.
pub open spec fn spec_key_block_5(j: int) -> Seq<char> {
    if j == 0 {
        "internet.IP"@
    } else if j == 1 {
        "internet.MACAddress"@
    } else if j == 2 {
        "internet.userAgent"@
    } else if j == 3 {
        "job.seniority"@
    } else if j == 4 {
        "job.field"@
    } else if j == 5 {
        "job.position"@
    } else if j == 6 {
        "job.title"@
    } else if j == 7 {
        "lorem.word"@
    } else if j == 8 {
        "lorem.words"@
    } else if j == 9 {
        "lorem.sentence"@
    } else if j == 10 {
        "lorem.sentences"@
    } else if j == 11 {
        "lorem.paragraph"@
    } else if j == 12 {
        "lorem.paragraphs"@
    } else {
        Seq::empty()
    }
}

/// One block of the catalog order.
pub open spec fn spec_key_block_6(j: int) -> Seq<char> {
    if j == 0 {
        "markdown.italicWord"@
    } else if j == 1 {
        "markdown.boldWord"@
    } else if j == 2 {
        "markdown.link"@
    } else if j == 3 {
        "markdown.bulletPoints"@
    } else if j == 4 {
        "markdown.listItems"@
    } else if j == 5 {
        "markdown.blockQuoteSingleLine"@
    } else if j == 6 {
        "markdown.blockQuoteMultiLine"@
    } else if j == 7 {
        "markdown.code"@
    } else if j == 8 {
        "name.firstName"@
    } else if j == 9 {
        "name.lastName"@
    } else if j == 10 {
        "name.title"@
    } else if j == 11 {
        "name.suffix"@
    } else if j == 12 {
        "name.name"@
    } else {
        Seq::empty()
    }
}

/// One block of the catalog order.
pub open spec fn spec_key_block_7(j: int) -> Seq<char> {
    if j == 0 {
        "name.nameWithTitle"@
    } else if j == 1 {
        "number.digit"@
    } else if j == 2 {
        "number.numberWithFormat<'a>"@
    } else if j == 3 {
        "phone_number.phoneNumber"@
    } else if j == 4 {
        "phone_number.cellNumber"@
    } else if j == 5 {
        "filesystem.filePath"@
    } else if j == 6 {
        "filesystem.fileName"@
    } else if j == 7 {
        "filesystem.fileExtension"@
    } else if j == 8 {
        "filesystem.dirPath"@
    } else if j == 9 {
        "filesystem.mimeType"@
    } else if j == 10 {
        "filesystem.semver"@
    } else if j == 11 {
        "filesystem.semverStable"@
    } else if j == 12 {
        "filesystem.semverUnstable"@
    } else {
        Seq::empty()
    }
}

/// One block of the catalog order.
pub open spec fn spec_key_block_8(j: int) -> Seq<char> {
    if j == 0 {
        "currency.currencyCode"@
    } else if j == 1 {
        "currency.currencyName"@
    } else if j == 2 {
        "currency.currencySymbol"@
    } else if j == 3 {
        "finance.bic"@
    } else if j == 4 {
        "finance.isin"@
    } else if j == 5 {
        "administrative.healthInsuranceCode"@
    } else if j == 6 {
        "automotive.licencePlate"@
    } else if j == 7 {
        "ulid"@
    } else if j == 8 {
        "uuid.v4"@
    } else {
        Seq::empty()
    }
}

/// The catalog's keys, by position in the fixed catalog order.
pub open spec fn spec_key_at(j: int) -> Seq<char> {
    if j < 13 {
        spec_key_block_0(j - 0)
    } else if j < 26 {
        spec_key_block_1(j - 13)
    } else if j < 39 {
        spec_key_block_2(j - 26)
    } else if j < 52 {
        spec_key_block_3(j - 39)
    } else if j < 65 {
        spec_key_block_4(j - 52)
    } else if j < 78 {
        spec_key_block_5(j - 65)
    } else if j < 91 {
        spec_key_block_6(j - 78)
    } else if j < 104 {
        spec_key_block_7(j - 91)
    } else if j < 113 {
        spec_key_block_8(j - 104)
    } else {
        Seq::empty()
    }
}

proof fn lemma_key_block_0(k: Seq<char>)
    ensures
        (k == "address.cityPrefix"@ ==> spec_key_at(0) == k),
        (k == "address.citySuffix"@ ==> spec_key_at(1) == k),
        (k == "address.cityName"@ ==> spec_key_at(2) == k),
        (k == "address.countryName"@ ==> spec_key_at(3) == k),
        (k == "address.countryCode"@ ==> spec_key_at(4) == k),
        (k == "address.streetSuffix"@ ==> spec_key_at(5) == k),
        (k == "address.streetName"@ ==> spec_key_at(6) == k),
        (k == "address.timeZone"@ ==> spec_key_at(7) == k),
        (k == "address.stateName"@ ==> spec_key_at(8) == k),
        (k == "address.stateAbbr"@ ==> spec_key_at(9) == k),
        (k == "address.secondaryAddressType"@ ==> spec_key_at(10) == k),
        (k == "address.secondaryAddress"@ ==> spec_key_at(11) == k),
        (k == "address.zipCode"@ ==> spec_key_at(12) == k),
{
}

proof fn lemma_key_block_1(k: Seq<char>)
    ensures
        (k == "address.postCode"@ ==> spec_key_at(13) == k),
        (k == "address.buildingNumber"@ ==> spec_key_at(14) == k),
        (k == "address.latitude"@ ==> spec_key_at(15) == k),
        (k == "address.longitude"@ ==> spec_key_at(16) == k),
        (k == "address.geohash"@ ==> spec_key_at(17) == k),
        (k == "barcode.isbn"@ ==> spec_key_at(18) == k),
        (k == "barcode.isbn10"@ ==> spec_key_at(19) == k),
        (k == "barcode.isbn13"@ ==> spec_key_at(20) == k),
        (k == "boolean.boolean"@ ==> spec_key_at(21) == k),
        (k == "color.hexColor"@ ==> spec_key_at(22) == k),
        (k == "color.rgbColor"@ ==> spec_key_at(23) == k),
        (k == "color.rgbaColor"@ ==> spec_key_at(24) == k),
        (k == "color.hslColor"@ ==> spec_key_at(25) == k),
{
}

proof fn lemma_key_block_2(k: Seq<char>)
    ensures
        (k == "color.hslaColor"@ ==> spec_key_at(26) == k),
        (k == "color.color"@ ==> spec_key_at(27) == k),
        (k == "chrono.time"@ ==> spec_key_at(28) == k),
        (k == "chrono.date"@ ==> spec_key_at(29) == k),
        (k == "chrono.dateTime"@ ==> spec_key_at(30) == k),
        (k == "chrono.duration"@ ==> spec_key_at(31) == k),
        (k == "chrono.dateTimeBefore"@ ==> spec_key_at(32) == k),
        (k == "chrono.dateTimeAfter"@ ==> spec_key_at(33) == k),
        (k == "chrono.dateTimeBetween"@ ==> spec_key_at(34) == k),
        (k == "time.time"@ ==> spec_key_at(35) == k),
        (k == "time.date"@ ==> spec_key_at(36) == k),
        (k == "time.dateTime"@ ==> spec_key_at(37) == k),
        (k == "time.duration"@ ==> spec_key_at(38) == k),
{
}

proof fn lemma_key_block_3(k: Seq<char>)
    ensures
        (k == "time.dateTimeBefore"@ ==> spec_key_at(39) == k),
        (k == "time.dateTimeAfter"@ ==> spec_key_at(40) == k),
        (k == "time.dateTimeBetween"@ ==> spec_key_at(41) == k),
        (k == "creditcard.creditCardNumber"@ ==> spec_key_at(42) == k),
        (k == "company.companySuffix"@ ==> spec_key_at(43) == k),
        (k == "company.companyName"@ ==> spec_key_at(44) == k),
        (k == "company.buzzword"@ ==> spec_key_at(45) == k),
        (k == "company.buzzwordMiddle"@ ==> spec_key_at(46) == k),
        (k == "company.buzzwordTail"@ ==> spec_key_at(47) == k),
        (k == "company.catchPhrase"@ ==> spec_key_at(48) == k),
        (k == "company.bsVerb"@ ==> spec_key_at(49) == k),
        (k == "company.bsAdj"@ ==> spec_key_at(50) == k),
        (k == "company.bsNoun"@ ==> spec_key_at(51) == k),
{
}

proof fn lemma_key_block_4(k: Seq<char>)
    ensures
        (k == "company.bs"@ ==> spec_key_at(52) == k),
        (k == "company.profession"@ ==> spec_key_at(53) == k),
        (k == "company.industry"@ ==> spec_key_at(54) == k),
        (k == "http.rfcStatusCode"@ ==> spec_key_at(55) == k),
        (k == "http.validStatusCode"@ ==> spec_key_at(56) == k),
        (k == "internet.freeEmailProvider"@ ==> spec_key_at(57) == k),
        (k == "internet.domainSuffix"@ ==> spec_key_at(58) == k),
        (k == "internet.freeEmail"@ ==> spec_key_at(59) == k),
        (k == "internet.safeEmail"@ ==> spec_key_at(60) == k),
        (k == "internet.username"@ ==> spec_key_at(61) == k),
        (k == "internet.password"@ ==> spec_key_at(62) == k),
        (k == "internet.IPv4"@ ==> spec_key_at(63) == k),
        (k == "internet.IPv6"@ ==> spec_key_at(64) == k),
{
}

proof fn lemma_key_block_5(k: Seq<char>)
    ensures
        (k == "internet.IP"@ ==> spec_key_at(65) == k),
        (k == "internet.MACAddress"@ ==> spec_key_at(66) == k),
        (k == "internet.userAgent"@ ==> spec_key_at(67) == k),
        (k == "job.seniority"@ ==> spec_key_at(68) == k),
        (k == "job.field"@ ==> spec_key_at(69) == k),
        (k == "job.position"@ ==> spec_key_at(70) == k),
        (k == "job.title"@ ==> spec_key_at(71) == k),
        (k == "lorem.word"@ ==> spec_key_at(72) == k),
        (k == "lorem.words"@ ==> spec_key_at(73) == k),
        (k == "lorem.sentence"@ ==> spec_key_at(74) == k),
        (k == "lorem.sentences"@ ==> spec_key_at(75) == k),
        (k == "lorem.paragraph"@ ==> spec_key_at(76) == k),
        (k == "lorem.paragraphs"@ ==> spec_key_at(77) == k),
{
}

proof fn lemma_key_block_6(k: Seq<char>)
    ensures
        (k == "markdown.italicWord"@ ==> spec_key_at(78) == k),
        (k == "markdown.boldWord"@ ==> spec_key_at(79) == k),
        (k == "markdown.link"@ ==> spec_key_at(80) == k),
        (k == "markdown.bulletPoints"@ ==> spec_key_at(81) == k),
        (k == "markdown.listItems"@ ==> spec_key_at(82) == k),
        (k == "markdown.blockQuoteSingleLine"@ ==> spec_key_at(83) == k),
        (k == "markdown.blockQuoteMultiLine"@ ==> spec_key_at(84) == k),
        (k == "markdown.code"@ ==> spec_key_at(85) == k),
        (k == "name.firstName"@ ==> spec_key_at(86) == k),
        (k == "name.lastName"@ ==> spec_key_at(87) == k),
        (k == "name.title"@ ==> spec_key_at(88) == k),
        (k == "name.suffix"@ ==> spec_key_at(89) == k),
        (k == "name.name"@ ==> spec_key_at(90) == k),
{
}

proof fn lemma_key_block_7(k: Seq<char>)
    ensures
        (k == "name.nameWithTitle"@ ==> spec_key_at(91) == k),
        (k == "number.digit"@ ==> spec_key_at(92) == k),
        (k == "number.numberWithFormat<'a>"@ ==> spec_key_at(93) == k),
        (k == "phone_number.phoneNumber"@ ==> spec_key_at(94) == k),
        (k == "phone_number.cellNumber"@ ==> spec_key_at(95) == k),
        (k == "filesystem.filePath"@ ==> spec_key_at(96) == k),
        (k == "filesystem.fileName"@ ==> spec_key_at(97) == k),
        (k == "filesystem.fileExtension"@ ==> spec_key_at(98) == k),
        (k == "filesystem.dirPath"@ ==> spec_key_at(99) == k),
        (k == "filesystem.mimeType"@ ==> spec_key_at(100) == k),
        (k == "filesystem.semver"@ ==> spec_key_at(101) == k),
        (k == "filesystem.semverStable"@ ==> spec_key_at(102) == k),
        (k == "filesystem.semverUnstable"@ ==> spec_key_at(103) == k),
{
}

proof fn lemma_key_block_8(k: Seq<char>)
    ensures
        (k == "currency.currencyCode"@ ==> spec_key_at(104) == k),
        (k == "currency.currencyName"@ ==> spec_key_at(105) == k),
        (k == "currency.currencySymbol"@ ==> spec_key_at(106) == k),
        (k == "finance.bic"@ ==> spec_key_at(107) == k),
        (k == "finance.isin"@ ==> spec_key_at(108) == k),
        (k == "administrative.healthInsuranceCode"@ ==> spec_key_at(109) == k),
        (k == "automotive.licencePlate"@ ==> spec_key_at(110) == k),
        (k == "ulid"@ ==> spec_key_at(111) == k),
        (k == "uuid.v4"@ ==> spec_key_at(112) == k),
{
}

/// A key is known to the catalog exactly when it stands somewhere in the
/// fixed catalog order.
pub proof fn lemma_known_key_iff(k: Seq<char>)
    ensures
        spec_known_key(k) <==> (exists|j: int| 0 <= j < 113 && spec_key_at(j) == k),
{
    if spec_known_key(k) {
        lemma_key_block_0(k);
        lemma_key_block_1(k);
        lemma_key_block_2(k);
        lemma_key_block_3(k);
        lemma_key_block_4(k);
        lemma_key_block_5(k);
        lemma_key_block_6(k);
        lemma_key_block_7(k);
        lemma_key_block_8(k);
    }
    if exists|j: int| 0 <= j < 113 && spec_key_at(j) == k {
        let j = choose|j: int| 0 <= j < 113 && spec_key_at(j) == k;
        assert(spec_known_key(spec_key_at(j)));
    }
}

/// The table of known catalog keys.
pub struct FakeKeys {
    /// The keys, in the fixed catalog order.
    pub sets: Vec<String>,
}

impl View for FakeKeys {
    type V = Seq<Seq<char>>;

    open spec fn view(&self) -> Seq<Seq<char>> {
        Seq::new(self.sets@.len(), |i: int| self.sets@[i]@)
    }
}

impl FakeKeys {
    /// The full table: one entry per catalog key, in order, so that a key is
    /// in the table exactly when the catalog knows it.
    #[verifier::rlimit(100)]
    pub fn new() -> (r: FakeKeys)
        ensures
            r@.len() == 113,
            forall|j: int| 0 <= j < 113 ==> r@[j] == spec_key_at(j),
            forall|k: Seq<char>| r@.contains(k) <==> spec_known_key(k),
    {
        let mut sets: Vec<String> = Vec::new();
        sets.push(String::from_str("address.cityPrefix"));
        proof {
            assert(sets@[0]@ == spec_key_at(0));
            assert(forall|j: int| 0 <= j < 1 ==> (#[trigger] sets@[j])@ == spec_key_at(j));
        }
        sets.push(String::from_str("address.citySuffix"));
        proof {
            assert(sets@[1]@ == spec_key_at(1));
            assert(forall|j: int| 0 <= j < 2 ==> (#[trigger] sets@[j])@ == spec_key_at(j));
        }
        sets.push(String::from_str("address.cityName"));
        proof {
            assert(sets@[2]@ == spec_key_at(2));
            assert(forall|j: int| 0 <= j < 3 ==> (#[trigger] sets@[j])@ == spec_key_at(j));
        }
        sets.push(String::from_str("address.countryName"));
        proof {
            assert(sets@[3]@ == spec_key_at(3));
            assert(forall|j: int| 0 <= j < 4 ==> (#[trigger] sets@[j])@ == spec_key_at(j));
        }
        sets.push(String::from_str("address.countryCode"));
        proof {
            assert(sets@[4]@ == spec_key_at(4));
            assert(forall|j: int| 0 <= j < 5 ==> (#[trigger] sets@[j])@ == spec_key_at(j));
        }
        sets.push(String::from_str("address.streetSuffix"));
        proof {
            assert(sets@[5]@ == spec_key_at(5));
            assert(forall|j: int| 0 <= j < 6 ==> (#[trigger] sets@[j])@ == spec_key_at(j));
        }
        sets.push(String::from_str("address.streetName"));
        proof {
            assert(sets@[6]@ == spec_key_at(6));
            assert(forall|j: int| 0 <= j < 7 ==> (#[trigger] sets@[j])@ == spec_key_at(j));
        }
        sets.push(String::from_str("address.timeZone"));
        proof {
            assert(sets@[7]@ == spec_key_at(7));
            assert(forall|j: int| 0 <= j < 8 ==> (#[trigger] sets@[j])@ == spec_key_at(j));
        }
        sets.push(String::from_str("address.stateName"));
        proof {
            assert(sets@[8]@ == spec_key_at(8));
            assert(forall|j: int| 0 <= j < 9 ==> (#[trigger] sets@[j])@ == spec_key_at(j));
        }
        sets.push(String::from_str("address.stateAbbr"));
        proof {
            assert(sets@[9]@ == spec_key_at(9));
            assert(forall|j: int| 0 <= j < 10 ==> (#[trigger] sets@[j])@ == spec_key_at(j));
        }
        sets.push(String::from_str("address.secondaryAddressType"));
        proof {
            assert(sets@[10]@ == spec_key_at(10));
            assert(forall|j: int| 0 <= j < 11 ==> (#[trigger] sets@[j])@ == spec_key_at(j));
        }
        sets.push(String::from_str("address.secondaryAddress"));
        proof {
            assert(sets@[11]@ == spec_key_at(11));
            assert(forall|j: int| 0 <= j < 12 ==> (#[trigger] sets@[j])@ == spec_key_at(j));
        }
        sets.push(String::from_str("address.zipCode"));
        proof {
            assert(sets@[12]@ == spec_key_at(12));
            assert(forall|j: int| 0 <= j < 13 ==> (#[trigger] sets@[j])@ == spec_key_at(j));
        }
        sets.push(String::from_str("address.postCode"));
        proof {
            assert(sets@[13]@ == spec_key_at(13));
            assert(forall|j: int| 0 <= j < 14 ==> (#[trigger] sets@[j])@ == spec_key_at(j));
        }
        sets.push(String::from_str("address.buildingNumber"));
        proof {
            assert(sets@[14]@ == spec_key_at(14));
            assert(forall|j: int| 0 <= j < 15 ==> (#[trigger] sets@[j])@ == spec_key_at(j));
        }
        sets.push(String::from_str("address.latitude"));
        proof {
            assert(sets@[15]@ == spec_key_at(15));
            assert(forall|j: int| 0 <= j < 16 ==> (#[trigger] sets@[j])@ == spec_key_at(j));
        }
        sets.push(String::from_str("address.longitude"));
        proof {
            assert(sets@[16]@ == spec_key_at(16));
            assert(forall|j: int| 0 <= j < 17 ==> (#[trigger] sets@[j])@ == spec_key_at(j));
        }
        sets.push(String::from_str("address.geohash"));
        proof {
            assert(sets@[17]@ == spec_key_at(17));
            assert(forall|j: int| 0 <= j < 18 ==> (#[trigger] sets@[j])@ == spec_key_at(j));
        }
        sets.push(String::from_str("barcode.isbn"));
        proof {
            assert(sets@[18]@ == spec_key_at(18));
            assert(forall|j: int| 0 <= j < 19 ==> (#[trigger] sets@[j])@ == spec_key_at(j));
        }
        sets.push(String::from_str("barcode.isbn10"));
        proof {
            assert(sets@[19]@ == spec_key_at(19));
            assert(forall|j: int| 0 <= j < 20 ==> (#[trigger] sets@[j])@ == spec_key_at(j));
        }
        sets.push(String::from_str("barcode.isbn13"));
        proof {
            assert(sets@[20]@ == spec_key_at(20));
            assert(forall|j: int| 0 <= j < 21 ==> (#[trigger] sets@[j])@ == spec_key_at(j));
        }
        sets.push(String::from_str("boolean.boolean"));
        proof {
            assert(sets@[21]@ == spec_key_at(21));
            assert(forall|j: int| 0 <= j < 22 ==> (#[trigger] sets@[j])@ == spec_key_at(j));
        }
        sets.push(String::from_str("color.hexColor"));
        proof {
            assert(sets@[22]@ == spec_key_at(22));
            assert(forall|j: int| 0 <= j < 23 ==> (#[trigger] sets@[j])@ == spec_key_at(j));
        }
        sets.push(String::from_str("color.rgbColor"));
        proof {
            assert(sets@[23]@ == spec_key_at(23));
            assert(forall|j: int| 0 <= j < 24 ==> (#[trigger] sets@[j])@ == spec_key_at(j));
        }
        sets.push(String::from_str("color.rgbaColor"));
        proof {
            assert(sets@[24]@ == spec_key_at(24));
            assert(forall|j: int| 0 <= j < 25 ==> (#[trigger] sets@[j])@ == spec_key_at(j));
        }
        sets.push(String::from_str("color.hslColor"));
        proof {
            assert(sets@[25]@ == spec_key_at(25));
            assert(forall|j: int| 0 <= j < 26 ==> (#[trigger] sets@[j])@ == spec_key_at(j));
        }
        sets.push(String::from_str("color.hslaColor"));
        proof {
            assert(sets@[26]@ == spec_key_at(26));
            assert(forall|j: int| 0 <= j < 27 ==> (#[trigger] sets@[j])@ == spec_key_at(j));
        }
        sets.push(String::from_str("color.color"));
        proof {
            assert(sets@[27]@ == spec_key_at(27));
            assert(forall|j: int| 0 <= j < 28 ==> (#[trigger] sets@[j])@ == spec_key_at(j));
        }
        sets.push(String::from_str("chrono.time"));
        proof {
            assert(sets@[28]@ == spec_key_at(28));
            assert(forall|j: int| 0 <= j < 29 ==> (#[trigger] sets@[j])@ == spec_key_at(j));
        }
        sets.push(String::from_str("chrono.date"));
        proof {
            assert(sets@[29]@ == spec_key_at(29));
            assert(forall|j: int| 0 <= j < 30 ==> (#[trigger] sets@[j])@ == spec_key_at(j));
        }
        sets.push(String::from_str("chrono.dateTime"));
        proof {
            assert(sets@[30]@ == spec_key_at(30));
            assert(forall|j: int| 0 <= j < 31 ==> (#[trigger] sets@[j])@ == spec_key_at(j));
        }
        sets.push(String::from_str("chrono.duration"));
        proof {
            assert(sets@[31]@ == spec_key_at(31));
            assert(forall|j: int| 0 <= j < 32 ==> (#[trigger] sets@[j])@ == spec_key_at(j));
        }
        sets.push(String::from_str("chrono.dateTimeBefore"));
        proof {
            assert(sets@[32]@ == spec_key_at(32));
            assert(forall|j: int| 0 <= j < 33 ==> (#[trigger] sets@[j])@ == spec_key_at(j));
        }
        sets.push(String::from_str("chrono.dateTimeAfter"));
        proof {
            assert(sets@[33]@ == spec_key_at(33));
            assert(forall|j: int| 0 <= j < 34 ==> (#[trigger] sets@[j])@ == spec_key_at(j));
        }
        sets.push(String::from_str("chrono.dateTimeBetween"));
        proof {
            assert(sets@[34]@ == spec_key_at(34));
            assert(forall|j: int| 0 <= j < 35 ==> (#[trigger] sets@[j])@ == spec_key_at(j));
        }
        sets.push(String::from_str("time.time"));
        proof {
            assert(sets@[35]@ == spec_key_at(35));
            assert(forall|j: int| 0 <= j < 36 ==> (#[trigger] sets@[j])@ == spec_key_at(j));
        }
        sets.push(String::from_str("time.date"));
        proof {
            assert(sets@[36]@ == spec_key_at(36));
            assert(forall|j: int| 0 <= j < 37 ==> (#[trigger] sets@[j])@ == spec_key_at(j));
        }
        sets.push(String::from_str("time.dateTime"));
        proof {
            assert(sets@[37]@ == spec_key_at(37));
            assert(forall|j: int| 0 <= j < 38 ==> (#[trigger] sets@[j])@ == spec_key_at(j));
        }
        sets.push(String::from_str("time.duration"));
        proof {
            assert(sets@[38]@ == spec_key_at(38));
            assert(forall|j: int| 0 <= j < 39 ==> (#[trigger] sets@[j])@ == spec_key_at(j));
        }
        sets.push(String::from_str("time.dateTimeBefore"));
        proof {
            assert(sets@[39]@ == spec_key_at(39));
            assert(forall|j: int| 0 <= j < 40 ==> (#[trigger] sets@[j])@ == spec_key_at(j));
        }
        sets.push(String::from_str("time.dateTimeAfter"));
        proof {
            assert(sets@[40]@ == spec_key_at(40));
            assert(forall|j: int| 0 <= j < 41 ==> (#[trigger] sets@[j])@ == spec_key_at(j));
        }
        sets.push(String::from_str("time.dateTimeBetween"));
        proof {
            assert(sets@[41]@ == spec_key_at(41));
            assert(forall|j: int| 0 <= j < 42 ==> (#[trigger] sets@[j])@ == spec_key_at(j));
        }
        sets.push(String::from_str("creditcard.creditCardNumber"));
        proof {
            assert(sets@[42]@ == spec_key_at(42));
            assert(forall|j: int| 0 <= j < 43 ==> (#[trigger] sets@[j])@ == spec_key_at(j));
        }
        sets.push(String::from_str("company.companySuffix"));
        proof {
            assert(sets@[43]@ == spec_key_at(43));
            assert(forall|j: int| 0 <= j < 44 ==> (#[trigger] sets@[j])@ == spec_key_at(j));
        }
        sets.push(String::from_str("company.companyName"));
        proof {
            assert(sets@[44]@ == spec_key_at(44));
            assert(forall|j: int| 0 <= j < 45 ==> (#[trigger] sets@[j])@ == spec_key_at(j));
        }
        sets.push(String::from_str("company.buzzword"));
        proof {
            assert(sets@[45]@ == spec_key_at(45));
            assert(forall|j: int| 0 <= j < 46 ==> (#[trigger] sets@[j])@ == spec_key_at(j));
        }
        sets.push(String::from_str("company.buzzwordMiddle"));
        proof {
            assert(sets@[46]@ == spec_key_at(46));
            assert(forall|j: int| 0 <= j < 47 ==> (#[trigger] sets@[j])@ == spec_key_at(j));
        }
        sets.push(String::from_str("company.buzzwordTail"));
        proof {
            assert(sets@[47]@ == spec_key_at(47));
            assert(forall|j: int| 0 <= j < 48 ==> (#[trigger] sets@[j])@ == spec_key_at(j));
        }
        sets.push(String::from_str("company.catchPhrase"));
        proof {
            assert(sets@[48]@ == spec_key_at(48));
            assert(forall|j: int| 0 <= j < 49 ==> (#[trigger] sets@[j])@ == spec_key_at(j));
        }
        sets.push(String::from_str("company.bsVerb"));
        proof {
            assert(sets@[49]@ == spec_key_at(49));
            assert(forall|j: int| 0 <= j < 50 ==> (#[trigger] sets@[j])@ == spec_key_at(j));
        }
        sets.push(String::from_str("company.bsAdj"));
        proof {
            assert(sets@[50]@ == spec_key_at(50));
            assert(forall|j: int| 0 <= j < 51 ==> (#[trigger] sets@[j])@ == spec_key_at(j));
        }
        sets.push(String::from_str("company.bsNoun"));
        proof {
            assert(sets@[51]@ == spec_key_at(51));
            assert(forall|j: int| 0 <= j < 52 ==> (#[trigger] sets@[j])@ == spec_key_at(j));
        }
        sets.push(String::from_str("company.bs"));
        proof {
            assert(sets@[52]@ == spec_key_at(52));
            assert(forall|j: int| 0 <= j < 53 ==> (#[trigger] sets@[j])@ == spec_key_at(j));
        }
        sets.push(String::from_str("company.profession"));
        proof {
            assert(sets@[53]@ == spec_key_at(53));
            assert(forall|j: int| 0 <= j < 54 ==> (#[trigger] sets@[j])@ == spec_key_at(j));
        }
        sets.push(String::from_str("company.industry"));
        proof {
            assert(sets@[54]@ == spec_key_at(54));
            assert(forall|j: int| 0 <= j < 55 ==> (#[trigger] sets@[j])@ == spec_key_at(j));
        }
        sets.push(String::from_str("http.rfcStatusCode"));
        proof {
            assert(sets@[55]@ == spec_key_at(55));
            assert(forall|j: int| 0 <= j < 56 ==> (#[trigger] sets@[j])@ == spec_key_at(j));
        }
        sets.push(String::from_str("http.validStatusCode"));
        proof {
            assert(sets@[56]@ == spec_key_at(56));
            assert(forall|j: int| 0 <= j < 57 ==> (#[trigger] sets@[j])@ == spec_key_at(j));
        }
        sets.push(String::from_str("internet.freeEmailProvider"));
        proof {
            assert(sets@[57]@ == spec_key_at(57));
            assert(forall|j: int| 0 <= j < 58 ==> (#[trigger] sets@[j])@ == spec_key_at(j));
        }
        sets.push(String::from_str("internet.domainSuffix"));
        proof {
            assert(sets@[58]@ == spec_key_at(58));
            assert(forall|j: int| 0 <= j < 59 ==> (#[trigger] sets@[j])@ == spec_key_at(j));
        }
        sets.push(String::from_str("internet.freeEmail"));
        proof {
            assert(sets@[59]@ == spec_key_at(59));
            assert(forall|j: int| 0 <= j < 60 ==> (#[trigger] sets@[j])@ == spec_key_at(j));
        }
        sets.push(String::from_str("internet.safeEmail"));
        proof {
            assert(sets@[60]@ == spec_key_at(60));
            assert(forall|j: int| 0 <= j < 61 ==> (#[trigger] sets@[j])@ == spec_key_at(j));
        }
        sets.push(String::from_str("internet.username"));
        proof {
            assert(sets@[61]@ == spec_key_at(61));
            assert(forall|j: int| 0 <= j < 62 ==> (#[trigger] sets@[j])@ == spec_key_at(j));
        }
        sets.push(String::from_str("internet.password"));
        proof {
            assert(sets@[62]@ == spec_key_at(62));
            assert(forall|j: int| 0 <= j < 63 ==> (#[trigger] sets@[j])@ == spec_key_at(j));
        }
        sets.push(String::from_str("internet.IPv4"));
        proof {
            assert(sets@[63]@ == spec_key_at(63));
            assert(forall|j: int| 0 <= j < 64 ==> (#[trigger] sets@[j])@ == spec_key_at(j));
        }
        sets.push(String::from_str("internet.IPv6"));
        proof {
            assert(sets@[64]@ == spec_key_at(64));
            assert(forall|j: int| 0 <= j < 65 ==> (#[trigger] sets@[j])@ == spec_key_at(j));
        }
        sets.push(String::from_str("internet.IP"));
        proof {
            assert(sets@[65]@ == spec_key_at(65));
            assert(forall|j: int| 0 <= j < 66 ==> (#[trigger] sets@[j])@ == spec_key_at(j));
        }
        sets.push(String::from_str("internet.MACAddress"));
        proof {
            assert(sets@[66]@ == spec_key_at(66));
            assert(forall|j: int| 0 <= j < 67 ==> (#[trigger] sets@[j])@ == spec_key_at(j));
        }
        sets.push(String::from_str("internet.userAgent"));
        proof {
            assert(sets@[67]@ == spec_key_at(67));
            assert(forall|j: int| 0 <= j < 68 ==> (#[trigger] sets@[j])@ == spec_key_at(j));
        }
        sets.push(String::from_str("job.seniority"));
        proof {
            assert(sets@[68]@ == spec_key_at(68));
            assert(forall|j: int| 0 <= j < 69 ==> (#[trigger] sets@[j])@ == spec_key_at(j));
        }
        sets.push(String::from_str("job.field"));
        proof {
            assert(sets@[69]@ == spec_key_at(69));
            assert(forall|j: int| 0 <= j < 70 ==> (#[trigger] sets@[j])@ == spec_key_at(j));
        }
        sets.push(String::from_str("job.position"));
        proof {
            assert(sets@[70]@ == spec_key_at(70));
            assert(forall|j: int| 0 <= j < 71 ==> (#[trigger] sets@[j])@ == spec_key_at(j));
        }
        sets.push(String::from_str("job.title"));
        proof {
            assert(sets@[71]@ == spec_key_at(71));
            assert(forall|j: int| 0 <= j < 72 ==> (#[trigger] sets@[j])@ == spec_key_at(j));
        }
        sets.push(String::from_str("lorem.word"));
        proof {
            assert(sets@[72]@ == spec_key_at(72));
            assert(forall|j: int| 0 <= j < 73 ==> (#[trigger] sets@[j])@ == spec_key_at(j));
        }
        sets.push(String::from_str("lorem.words"));
        proof {
            assert(sets@[73]@ == spec_key_at(73));
            assert(forall|j: int| 0 <= j < 74 ==> (#[trigger] sets@[j])@ == spec_key_at(j));
        }
        sets.push(String::from_str("lorem.sentence"));
        proof {
            assert(sets@[74]@ == spec_key_at(74));
            assert(forall|j: int| 0 <= j < 75 ==> (#[trigger] sets@[j])@ == spec_key_at(j));
        }
        sets.push(String::from_str("lorem.sentences"));
        proof {
            assert(sets@[75]@ == spec_key_at(75));
            assert(forall|j: int| 0 <= j < 76 ==> (#[trigger] sets@[j])@ == spec_key_at(j));
        }
        sets.push(String::from_str("lorem.paragraph"));
        proof {
            assert(sets@[76]@ == spec_key_at(76));
            assert(forall|j: int| 0 <= j < 77 ==> (#[trigger] sets@[j])@ == spec_key_at(j));
        }
        sets.push(String::from_str("lorem.paragraphs"));
        proof {
            assert(sets@[77]@ == spec_key_at(77));
            assert(forall|j: int| 0 <= j < 78 ==> (#[trigger] sets@[j])@ == spec_key_at(j));
        }
        sets.push(String::from_str("markdown.italicWord"));
        proof {
            assert(sets@[78]@ == spec_key_at(78));
            assert(forall|j: int| 0 <= j < 79 ==> (#[trigger] sets@[j])@ == spec_key_at(j));
        }
        sets.push(String::from_str("markdown.boldWord"));
        proof {
            assert(sets@[79]@ == spec_key_at(79));
            assert(forall|j: int| 0 <= j < 80 ==> (#[trigger] sets@[j])@ == spec_key_at(j));
        }
        sets.push(String::from_str("markdown.link"));
        proof {
            assert(sets@[80]@ == spec_key_at(80));
            assert(forall|j: int| 0 <= j < 81 ==> (#[trigger] sets@[j])@ == spec_key_at(j));
        }
        sets.push(String::from_str("markdown.bulletPoints"));
        proof {
            assert(sets@[81]@ == spec_key_at(81));
            assert(forall|j: int| 0 <= j < 82 ==> (#[trigger] sets@[j])@ == spec_key_at(j));
        }
        sets.push(String::from_str("markdown.listItems"));
        proof {
            assert(sets@[82]@ == spec_key_at(82));
            assert(forall|j: int| 0 <= j < 83 ==> (#[trigger] sets@[j])@ == spec_key_at(j));
        }
        sets.push(String::from_str("markdown.blockQuoteSingleLine"));
        proof {
            assert(sets@[83]@ == spec_key_at(83));
            assert(forall|j: int| 0 <= j < 84 ==> (#[trigger] sets@[j])@ == spec_key_at(j));
        }
        sets.push(String::from_str("markdown.blockQuoteMultiLine"));
        proof {
            assert(sets@[84]@ == spec_key_at(84));
            assert(forall|j: int| 0 <= j < 85 ==> (#[trigger] sets@[j])@ == spec_key_at(j));
        }
        sets.push(String::from_str("markdown.code"));
        proof {
            assert(sets@[85]@ == spec_key_at(85));
            assert(forall|j: int| 0 <= j < 86 ==> (#[trigger] sets@[j])@ == spec_key_at(j));
        }
        sets.push(String::from_str("name.firstName"));
        proof {
            assert(sets@[86]@ == spec_key_at(86));
            assert(forall|j: int| 0 <= j < 87 ==> (#[trigger] sets@[j])@ == spec_key_at(j));
        }
        sets.push(String::from_str("name.lastName"));
        proof {
            assert(sets@[87]@ == spec_key_at(87));
            assert(forall|j: int| 0 <= j < 88 ==> (#[trigger] sets@[j])@ == spec_key_at(j));
        }
        sets.push(String::from_str("name.title"));
        proof {
            assert(sets@[88]@ == spec_key_at(88));
            assert(forall|j: int| 0 <= j < 89 ==> (#[trigger] sets@[j])@ == spec_key_at(j));
        }
        sets.push(String::from_str("name.suffix"));
        proof {
            assert(sets@[89]@ == spec_key_at(89));
            assert(forall|j: int| 0 <= j < 90 ==> (#[trigger] sets@[j])@ == spec_key_at(j));
        }
        sets.push(String::from_str("name.name"));
        proof {
            assert(sets@[90]@ == spec_key_at(90));
            assert(forall|j: int| 0 <= j < 91 ==> (#[trigger] sets@[j])@ == spec_key_at(j));
        }
        sets.push(String::from_str("name.nameWithTitle"));
        proof {
            assert(sets@[91]@ == spec_key_at(91));
            assert(forall|j: int| 0 <= j < 92 ==> (#[trigger] sets@[j])@ == spec_key_at(j));
        }
        sets.push(String::from_str("number.digit"));
        proof {
            assert(sets@[92]@ == spec_key_at(92));
            assert(forall|j: int| 0 <= j < 93 ==> (#[trigger] sets@[j])@ == spec_key_at(j));
        }
        sets.push(String::from_str("number.numberWithFormat<'a>"));
        proof {
            assert(sets@[93]@ == spec_key_at(93));
            assert(forall|j: int| 0 <= j < 94 ==> (#[trigger] sets@[j])@ == spec_key_at(j));
        }
        sets.push(String::from_str("phone_number.phoneNumber"));
        proof {
            assert(sets@[94]@ == spec_key_at(94));
            assert(forall|j: int| 0 <= j < 95 ==> (#[trigger] sets@[j])@ == spec_key_at(j));
        }
        sets.push(String::from_str("phone_number.cellNumber"));
        proof {
            assert(sets@[95]@ == spec_key_at(95));
            assert(forall|j: int| 0 <= j < 96 ==> (#[trigger] sets@[j])@ == spec_key_at(j));
        }
        sets.push(String::from_str("filesystem.filePath"));
        proof {
            assert(sets@[96]@ == spec_key_at(96));
            assert(forall|j: int| 0 <= j < 97 ==> (#[trigger] sets@[j])@ == spec_key_at(j));
        }
        sets.push(String::from_str("filesystem.fileName"));
        proof {
            assert(sets@[97]@ == spec_key_at(97));
            assert(forall|j: int| 0 <= j < 98 ==> (#[trigger] sets@[j])@ == spec_key_at(j));
        }
        sets.push(String::from_str("filesystem.fileExtension"));
        proof {
            assert(sets@[98]@ == spec_key_at(98));
            assert(forall|j: int| 0 <= j < 99 ==> (#[trigger] sets@[j])@ == spec_key_at(j));
        }
        sets.push(String::from_str("filesystem.dirPath"));
        proof {
            assert(sets@[99]@ == spec_key_at(99));
            assert(forall|j: int| 0 <= j < 100 ==> (#[trigger] sets@[j])@ == spec_key_at(j));
        }
        sets.push(String::from_str("filesystem.mimeType"));
        proof {
            assert(sets@[100]@ == spec_key_at(100));
            assert(forall|j: int| 0 <= j < 101 ==> (#[trigger] sets@[j])@ == spec_key_at(j));
        }
        sets.push(String::from_str("filesystem.semver"));
        proof {
            assert(sets@[101]@ == spec_key_at(101));
            assert(forall|j: int| 0 <= j < 102 ==> (#[trigger] sets@[j])@ == spec_key_at(j));
        }
        sets.push(String::from_str("filesystem.semverStable"));
        proof {
            assert(sets@[102]@ == spec_key_at(102));
            assert(forall|j: int| 0 <= j < 103 ==> (#[trigger] sets@[j])@ == spec_key_at(j));
        }
        sets.push(String::from_str("filesystem.semverUnstable"));
        proof {
            assert(sets@[103]@ == spec_key_at(103));
            assert(forall|j: int| 0 <= j < 104 ==> (#[trigger] sets@[j])@ == spec_key_at(j));
        }
        sets.push(String::from_str("currency.currencyCode"));
        proof {
            assert(sets@[104]@ == spec_key_at(104));
            assert(forall|j: int| 0 <= j < 105 ==> (#[trigger] sets@[j])@ == spec_key_at(j));
        }
        sets.push(String::from_str("currency.currencyName"));
        proof {
            assert(sets@[105]@ == spec_key_at(105));
            assert(forall|j: int| 0 <= j < 106 ==> (#[trigger] sets@[j])@ == spec_key_at(j));
        }
        sets.push(String::from_str("currency.currencySymbol"));
        proof {
            assert(sets@[106]@ == spec_key_at(106));
            assert(forall|j: int| 0 <= j < 107 ==> (#[trigger] sets@[j])@ == spec_key_at(j));
        }
        sets.push(String::from_str("finance.bic"));
        proof {
            assert(sets@[107]@ == spec_key_at(107));
            assert(forall|j: int| 0 <= j < 108 ==> (#[trigger] sets@[j])@ == spec_key_at(j));
        }
        sets.push(String::from_str("finance.isin"));
        proof {
            assert(sets@[108]@ == spec_key_at(108));
            assert(forall|j: int| 0 <= j < 109 ==> (#[trigger] sets@[j])@ == spec_key_at(j));
        }
        sets.push(String::from_str("administrative.healthInsuranceCode"));
        proof {
            assert(sets@[109]@ == spec_key_at(109));
            assert(forall|j: int| 0 <= j < 110 ==> (#[trigger] sets@[j])@ == spec_key_at(j));
        }
        sets.push(String::from_str("automotive.licencePlate"));
        proof {
            assert(sets@[110]@ == spec_key_at(110));
            assert(forall|j: int| 0 <= j < 111 ==> (#[trigger] sets@[j])@ == spec_key_at(j));
        }
        sets.push(String::from_str("ulid"));
        proof {
            assert(sets@[111]@ == spec_key_at(111));
            assert(forall|j: int| 0 <= j < 112 ==> (#[trigger] sets@[j])@ == spec_key_at(j));
        }
        sets.push(String::from_str("uuid.v4"));
        proof {
            assert(sets@[112]@ == spec_key_at(112));
            assert(forall|j: int| 0 <= j < 113 ==> (#[trigger] sets@[j])@ == spec_key_at(j));
        }
        let r = FakeKeys { sets };
        proof {
            assert forall|k: Seq<char>| r@.contains(k) <==> spec_known_key(k) by {
                lemma_known_key_iff(k);
                if r@.contains(k) {
                    let j = choose|j: int| 0 <= j < r@.len() && r@[j] == k;
                    assert(r@[j] == spec_key_at(j));
                }
                if spec_known_key(k) {
                    let j = choose|j: int| 0 <= j < 113 && spec_key_at(j) == k;
                    assert(r@[j] == k);
                    assert(r@.contains(k));
                }
            }
        }
        r
    }

    /// Whether the catalog understands `key`.
    pub fn contains_key(&self, key: &str) -> (r: bool)
        ensures
            r == self@.contains(key@),
    {
        let mut i: usize = 0;
        while i < self.sets.len()
            invariant
                0 <= i <= self.sets@.len(),
                forall|j: int| 0 <= j < i ==> self.sets@[j]@ != key@,
            decreases self.sets@.len() - i,
        {
            if str_eq(self.sets[i].as_str(), key) {
                proof {
                    assert(self@[i as int] == key@);
                    assert(self@.contains(key@));
                }
                return true;
            }
            i = i + 1;
        }
        proof {
            assert(forall|j: int| 0 <= j < self@.len() ==> self@[j] != key@);
            assert(!self@.contains(key@));
        }
        false
    }
}

} // verus!
