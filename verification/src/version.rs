//! Firmware versions: seven bytes, four that describe the hardware and three
//! that number the software.

use vstd::prelude::*;
use vstd::slice::slice_subrange;
use vstd::string::*;
use crate::text::{
    chars_of, decimal, ends_with, has_ending, lemma_decimal, lemma_parse_decimal,
    lemma_split_concat, lemma_split_whole, parse_u8, push_decimal, read_u8, split, split_chars,
};

verus! {

/// The directory that holds the firmware files.
pub const FIRMWARE_DIRECTORY: &'static str = "/lib/firmware/gocontroll/";

/// The software byte of an erased module: three of them stand for "blank".
pub const BLANK: u8 = 255;

/// A firmware version: vendor, family, variant and revision of the hardware,
/// then the three bytes of the software version.
#[derive(Debug, PartialEq, Eq, Clone, Copy)]
pub struct FirmwareVersion {
    pub firmware: [u8; 7],
}

/// The seven bytes in text: each in decimal, with a dash between them.
pub open spec fn dashed(bytes: Seq<u8>) -> Seq<char>
    decreases bytes.len(),
{
    if bytes.len() == 0 {
        Seq::empty()
    } else if bytes.len() == 1 {
        decimal(bytes[0] as nat)
    } else {
        dashed(bytes.drop_last()).push('-') + decimal(bytes.last() as nat)
    }
}

/// The ending of a firmware file's name.
pub open spec fn extension() -> Seq<char> {
    seq!['.', 's', 'r', 'e', 'c']
}

/// The part of a file name that is read as a version: what stands before the
/// first dot.
pub open spec fn stem(name: Seq<char>) -> Seq<char> {
    split(name, '.')[0]
}

/// The bytes that the fields of a file name spell: the stem cut at its
/// dashes, at most seven fields, each of them a byte in decimal. Fields that
/// are missing count as zero.
pub open spec fn parse_fields(fields: Seq<Seq<char>>) -> Option<Seq<u8>> {
    if fields.len() <= 7 && forall|i: int|
        0 <= i < fields.len() ==> (#[trigger] parse_u8(fields[i])) is Some {
        Some(
            Seq::new(
                7,
                |i: int|
                    if i < fields.len() {
                        parse_u8(fields[i]).unwrap()
                    } else {
                        0u8
                    },
            ),
        )
    } else {
        None
    }
}

/// The bytes of the version that the file name `name` spells.
pub open spec fn parse_name(name: Seq<char>) -> Option<Seq<u8>> {
    parse_fields(split(stem(name), '-'))
}

/// The directory that holds the firmware files, as the contracts see it.
pub open spec fn firmware_directory() -> Seq<char> {
    FIRMWARE_DIRECTORY@
}

/// Whether the file name `name` is taken for a firmware image: it ends like
/// one and spells a version.
pub open spec fn names_firmware(name: Seq<char>) -> bool {
    ends_with(name, extension()) && parse_name(name) is Some
}

/// The versions that the file names `names` spell, in their order. Names
/// that are not taken for firmware images are passed over.
pub open spec fn catalogued(names: Seq<Seq<char>>) -> Seq<Seq<u8>>
    decreases names.len(),
{
    if names.len() == 0 {
        Seq::empty()
    } else if names_firmware(names.last()) {
        catalogued(names.drop_last()).push(parse_name(names.last()).unwrap())
    } else {
        catalogued(names.drop_last())
    }
}

/// The bytes of each of `versions`.
pub open spec fn bytes_of(versions: Seq<FirmwareVersion>) -> Seq<Seq<u8>> {
    Seq::new(versions.len(), |i: int| versions[i].firmware@)
}

/// Whether `version` is one of `versions`.
pub open spec fn listed(version: FirmwareVersion, versions: Seq<FirmwareVersion>) -> bool {
    exists|i: int| 0 <= i < versions.len() && (#[trigger] versions[i]).firmware@ == version.firmware@
}

/// Reads the versions of the firmware images among the files named `names`.
pub fn catalogue(names: &Vec<String>) -> (versions: Vec<FirmwareVersion>)
    ensures
        bytes_of(versions@) == catalogued(names.deep_view()),
{
    let ghost all = names.deep_view();
    let mut versions: Vec<FirmwareVersion> = Vec::new();
    let mut i: usize = 0;
    assert(all.take(0) =~= Seq::<Seq<char>>::empty());
    assert(bytes_of(versions@) =~= catalogued(all.take(0)));
    while i < names.len()
        invariant
            i <= names@.len(),
            all == names.deep_view(),
            bytes_of(versions@) == catalogued(all.take(i as int)),
        decreases names@.len() - i,
    {
        let name = names[i].clone();
        let ghost before = bytes_of(versions@);
        proof {
            let next = all.take(i + 1);
            assert(next.drop_last() =~= all.take(i as int));
            assert(next.last() == name@);
            reveal_strlit(".srec");
            assert(".srec"@ =~= extension());
        }
        let chars = chars_of(name.as_str());
        if has_ending(chars.as_slice(), chars_of(".srec").as_slice()) {
            match FirmwareVersion::from_filename(name) {
                Some(version) => {
                    versions.push(version);
                    assert(bytes_of(versions@) =~= before.push(version.firmware@));
                },
                None => {},
            }
        }
        i += 1;
    }
    assert(all.take(i as int) =~= all);
    versions
}

/// Tells whether `version` is one of `versions`.
pub fn is_listed(version: &FirmwareVersion, versions: &[FirmwareVersion]) -> (found: bool)
    ensures
        found == listed(*version, versions@),
{
    let mut i: usize = 0;
    while i < versions.len()
        invariant
            i <= versions@.len(),
            forall|k: int| 0 <= k < i ==> (#[trigger] versions@[k]).firmware@ != version.firmware@,
        decreases versions@.len() - i,
    {
        if version.same_as(&versions[i]) {
            return true;
        }
        i += 1;
    }
    false
}

impl FirmwareVersion {
    /// Tells whether two versions hold the same bytes.
    pub fn same_as(&self, other: &FirmwareVersion) -> (same: bool)
        ensures
            same == (self.firmware@ == other.firmware@),
    {
        let mut i: usize = 0;
        while i < 7
            invariant
                i <= 7,
                forall|k: int| 0 <= k < i ==> self.firmware@[k] == other.firmware@[k],
            decreases 7 - i,
        {
            if self.firmware[i] != other.firmware[i] {
                return false;
            }
            i += 1;
        }
        assert(self.firmware@ =~= other.firmware@);
        true
    }

    /// The path of the version's firmware file.
    pub open spec fn path(self) -> Seq<char> {
        firmware_directory() + self.filename()
    }

    /// The path of the version's firmware file.
    pub fn firmware_path(&self) -> (path: String)
        ensures
            path@ == self.path(),
    {
        let mut path = String::new();
        path.append(FIRMWARE_DIRECTORY);
        let name = self.as_filename();
        path.append(name.as_str());
        assert(path@ =~= self.path());
        path
    }

    /// The version in text, like `20-10-1-5-0-0-9`.
    pub open spec fn text(self) -> Seq<char> {
        dashed(self.firmware@)
    }

    /// The name of the version's firmware file, like `20-10-1-5-0-0-9.srec`.
    pub open spec fn filename(self) -> Seq<char> {
        self.text() + extension()
    }

    /// Reads the version that a file name spells, like `20-10-1-5-0-0-9.srec`.
    /// The ending is not looked at: what stands before the first dot is cut at
    /// its dashes, and each field is read as a byte.
    pub fn from_filename(name: String) -> (version: Option<Self>)
        ensures
            match parse_name(name@) {
                Some(bytes) => version matches Some(v) && v.firmware@ == bytes,
                None => version is None,
            },
    {
        let mut firmware: [u8; 7] = [0u8; 7];
        let chars = chars_of(name.as_str());
        let pieces = split_chars(chars.as_slice(), '.');
        let ghost stem_text = pieces.deep_view()[0];
        assert(pieces@[0]@ =~= stem_text);
        let fields = split_chars(pieces[0].as_slice(), '-');
        let ghost texts = fields.deep_view();
        if fields.len() > 7 {
            return None;
        }
        let mut i: usize = 0;
        while i < fields.len()
            invariant
                i <= fields@.len() <= 7,
                texts == fields.deep_view(),
                texts == split(stem(name@), '-'),
                forall|k: int| 0 <= k < i ==> (#[trigger] parse_u8(texts[k])) == Some(firmware@[k]),
                forall|k: int| i <= k < 7 ==> firmware@[k] == 0,
            decreases fields@.len() - i,
        {
            assert(fields@[i as int]@ =~= texts[i as int]);
            match read_u8(fields[i].as_slice()) {
                Some(byte) => {
                    firmware[i] = byte;
                },
                None => {
                    return None;
                },
            }
            i += 1;
        }
        assert(firmware@ =~= parse_name(name@).unwrap());
        Some(Self { firmware })
    }

    /// Writes the version as text, like `20-10-1-5-0-0-9`.
    pub fn as_string(&self) -> (text: String)
        ensures
            text@ == self.text(),
    {
        let mut text = String::new();
        let mut i: usize = 0;
        assert(self.firmware@.take(0) =~= Seq::<u8>::empty());
        while i < 7
            invariant
                i <= 7,
                text@ == dashed(self.firmware@.take(i as int)),
            decreases 7 - i,
        {
            if i > 0 {
                proof {
                    reveal_strlit("-");
                }
                text.append("-");
            }
            push_decimal(&mut text, self.firmware[i] as u32);
            proof {
                let next = self.firmware@.take(i + 1);
                assert(next.drop_last() =~= self.firmware@.take(i as int));
                assert(next.last() == self.firmware@[i as int]);
                assert(text@ =~= dashed(next));
            }
            i += 1;
        }
        assert(self.firmware@.take(7) =~= self.firmware@);
        text
    }

    /// Writes the name of the version's firmware file, like
    /// `20-10-1-5-0-0-9.srec`.
    pub fn as_filename(&self) -> (name: String)
        ensures
            name@ == self.filename(),
    {
        let mut name = self.as_string();
        proof {
            reveal_strlit(".srec");
        }
        name.append(".srec");
        assert(name@ =~= self.filename());
        name
    }

    /// The hardware descriptor: bytes 0 to 3.
    pub open spec fn hardware(self) -> Seq<u8> {
        self.firmware@.subrange(0, 4)
    }

    /// The software version: bytes 4 to 6.
    pub open spec fn software(self) -> Seq<u8> {
        self.firmware@.subrange(4, 7)
    }

    /// The software part of the version.
    pub fn get_software(&self) -> (software: &[u8])
        ensures
            software@ == self.software(),
    {
        slice_subrange(self.firmware.as_slice(), 4, 7)
    }

    /// The hardware part of the version.
    pub fn get_hardware(&self) -> (hardware: &[u8])
        ensures
            hardware@ == self.hardware(),
    {
        slice_subrange(self.firmware.as_slice(), 0, 4)
    }
}

/// Each byte of `bytes` in decimal.
pub open spec fn decimals(bytes: Seq<u8>) -> Seq<Seq<char>> {
    Seq::new(bytes.len(), |i: int| decimal(bytes[i] as nat))
}

/// Whether `s` holds decimal digits and dashes only.
pub open spec fn digits_and_dashes(s: Seq<char>) -> bool {
    forall|i: int| 0 <= i < s.len() ==> 48 <= (#[trigger] s[i]) as int <= 57 || s[i] == '-'
}

proof fn lemma_decimal_is_plain(n: nat)
    ensures
        digits_and_dashes(decimal(n)),
        forall|i: int| 0 <= i < decimal(n).len() ==> (#[trigger] decimal(n)[i]) != '-',
{
    lemma_decimal(n);
    let s = decimal(n);
    assert forall|i: int| 0 <= i < s.len() implies 48 <= (#[trigger] s[i]) as int <= 57 by {
        assert(crate::text::is_digit(s[i]));
    }
}

/// Bytes in text hold digits and dashes only, and cut at the dashes they
/// give each byte in decimal.
pub proof fn lemma_dashed(bytes: Seq<u8>)
    requires
        bytes.len() >= 1,
    ensures
        digits_and_dashes(dashed(bytes)),
        split(dashed(bytes), '-') == decimals(bytes),
    decreases bytes.len(),
{
    let last = decimal(bytes.last() as nat);
    lemma_decimal_is_plain(bytes.last() as nat);
    lemma_split_whole(last, '-');
    if bytes.len() == 1 {
        assert(decimals(bytes) =~= seq![last]);
    } else {
        let init = bytes.drop_last();
        lemma_dashed(init);
        lemma_split_concat(dashed(init), last, '-');
        assert(decimals(bytes) =~= decimals(init) + seq![last]);
    }
}

/// The name of a version's firmware file reads back as the version.
pub proof fn law_filename_round_trip(v: FirmwareVersion)
    ensures
        parse_name(v.filename()) == Some(v.firmware@),
{
    let bytes = v.firmware@;
    let text = v.text();
    lemma_dashed(bytes);
    let tail = seq!['s', 'r', 'e', 'c'];
    assert(v.filename() =~= text.push('.') + tail);
    lemma_split_concat(text, tail, '.');
    lemma_split_whole(text, '.');
    assert(stem(v.filename()) == text);
    let fields = decimals(bytes);
    assert forall|i: int| 0 <= i < fields.len() implies (#[trigger] parse_u8(fields[i])) == Some(
        bytes[i],
    ) by {
        lemma_parse_decimal(bytes[i]);
    }
    assert(parse_fields(fields).unwrap() =~= bytes);
}

} // verus!
