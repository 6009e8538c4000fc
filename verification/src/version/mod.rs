//! The hardware and firmware versions of a reMarkable tablet, as its system files
//! state them.

mod order;

use vstd::prelude::*;

use crate::text::{
    all_digits, chars_of, decimal_digits, find_char, is_first_index_of, lemma_decimal_digits,
    lemma_parse_decimal_digits, lemma_split_at, lemma_split_once_at, parse_usize,
    parse_usize_range, push_decimal, split, split_once, tail_equals, trim, trimmed_chars,
};

pub use order::{
    lemma_firmware_order_antisymmetric, lemma_firmware_order_total,
    lemma_firmware_order_transitive, version_le, version_lt,
};

verus! {

/// The tablet model.
#[derive(Debug, Clone, Copy, PartialEq, Eq, Structural)]
pub enum HardwareVersion {
    Rm1,
    Rm2,
    Ferrari,
}

/// A firmware release `version.major.minor.patch`.
#[derive(Debug, Clone, Copy, PartialEq, Eq, Structural, Ord)]
pub struct FirmwareVersion {
    pub version: usize,
    pub major: usize,
    pub minor: usize,
    pub patch: usize,
}

/// What the server reports of the tablet it runs on.
#[derive(Debug, Clone, Copy, PartialEq, Eq, Structural)]
pub struct VersionInfo {
    pub hardware: HardwareVersion,
    pub firmware: FirmwareVersion,
}

/// Why a version text was refused.
#[derive(Debug, Clone, Copy, PartialEq, Eq, Structural)]
pub enum VersionError {
    /// The text lacks the character that separates its key from its value.
    MissingSeparator,
    /// The hardware name is none of the known ones.
    UnknownHardwareVersion,
    /// A part of the firmware version is not a `usize` number.
    InvalidNumber,
    /// The firmware version has more than four parts.
    TooManyParts,
}

/// The hardware version that the text `s` names: a first word, a space, then `1.0`,
/// `2.0` or `Ferrari`.
pub open spec fn spec_parse_hardware_version(s: Seq<char>) -> Result<HardwareVersion, VersionError> {
    match split_once(s, ' ') {
        None => Err(VersionError::MissingSeparator),
        Some((_, name)) => if name == "1.0"@ {
            Ok(HardwareVersion::Rm1)
        } else if name == "2.0"@ {
            Ok(HardwareVersion::Rm2)
        } else if name == "Ferrari"@ {
            Ok(HardwareVersion::Ferrari)
        } else {
            Err(VersionError::UnknownHardwareVersion)
        },
    }
}

/// The numbers of a firmware version line `KEY=a.b.c...`: the text after the first `=`,
/// split at every `.`, each part read as a `usize`.
pub open spec fn spec_version_parts(s: Seq<char>) -> Result<Seq<usize>, VersionError> {
    match split_once(s, '=') {
        None => Err(VersionError::MissingSeparator),
        Some((_, value)) => {
            let parts = split(value, '.');
            if exists|i: int| 0 <= i < parts.len() && (#[trigger] parse_usize(parts[i])) is None {
                Err(VersionError::InvalidNumber)
            } else if parts.len() > 4 {
                Err(VersionError::TooManyParts)
            } else {
                Ok(parts.map_values(|p: Seq<char>| parse_usize(p).unwrap()))
            }
        },
    }
}

/// The version line `s` names a version of fewer than four parts; the firmware version
/// cannot be read from it.
pub open spec fn firmware_version_incomplete(s: Seq<char>) -> bool {
    spec_version_parts(s) matches Ok(parts) && parts.len() < 4
}

/// The firmware version that the line `s` states.
pub open spec fn spec_parse_firmware_version(s: Seq<char>) -> Result<FirmwareVersion, VersionError> {
    match spec_version_parts(s) {
        Err(e) => Err(e),
        Ok(parts) => Ok(
            FirmwareVersion { version: parts[0], major: parts[1], minor: parts[2], patch: parts[3] },
        ),
    }
}

/// `version.major.minor.patch`, each number in decimal.
pub open spec fn spec_version_text(v: FirmwareVersion) -> Seq<char> {
    decimal_digits(v.version as nat) + seq!['.'] + decimal_digits(v.major as nat) + seq!['.']
        + decimal_digits(v.minor as nat) + seq!['.'] + decimal_digits(v.patch as nat)
}

fn parse_hardware_version_chars(v: &Vec<char>) -> (r: Result<HardwareVersion, VersionError>)
    ensures
        r == spec_parse_hardware_version(v@),
{
    match find_char(v, 0, ' ') {
        None => {
            assert(v@.skip(0) =~= v@);
            Err(VersionError::MissingSeparator)
        },
        Some(p) => {
            proof {
                assert(v@.skip(0) =~= v@);
                lemma_split_once_at(v@, ' ', p as int);
            }
            if tail_equals(v, p + 1, "1.0") {
                Ok(HardwareVersion::Rm1)
            } else if tail_equals(v, p + 1, "2.0") {
                Ok(HardwareVersion::Rm2)
            } else if tail_equals(v, p + 1, "Ferrari") {
                Ok(HardwareVersion::Ferrari)
            } else {
                Err(VersionError::UnknownHardwareVersion)
            }
        },
    }
}

fn version_parts_chars(v: &Vec<char>) -> (r: Result<Vec<usize>, VersionError>)
    ensures
        match r {
            Ok(parts) => spec_version_parts(v@) == Ok::<Seq<usize>, VersionError>(parts@),
            Err(e) => spec_version_parts(v@) == Err::<Seq<usize>, VersionError>(e),
        },
{
    let p = match find_char(v, 0, '=') {
        None => {
            assert(v@.skip(0) =~= v@);
            return Err(VersionError::MissingSeparator);
        },
        Some(p) => p,
    };
    proof {
        assert(v@.skip(0) =~= v@);
        lemma_split_once_at(v@, '=', p as int);
    }
    let ghost value = v@.skip(p + 1);
    let ghost parts = split(value, '.');
    let mut values: Vec<usize> = Vec::new();
    let ghost mut done: Seq<Seq<char>> = seq![];
    let mut pos: usize = p + 1;
    assert(v@.skip(pos as int) =~= value);
    loop
        invariant
            p < pos <= v.len(),
            split_once(v@, '=') == Some((v@.take(p as int), value)),
            value == v@.skip(p + 1),
            parts == split(value, '.'),
            parts == done + split(v@.skip(pos as int), '.'),
            forall|i: int| 0 <= i < done.len() ==> (#[trigger] parse_usize(done[i])) is Some,
            values@ == done.map_values(|d: Seq<char>| parse_usize(d).unwrap()),
        decreases v.len() - pos,
    {
        let ghost rest = v@.skip(pos as int);
        let found = find_char(v, pos, '.');
        let end = match found {
            Some(q) => q,
            None => v.len(),
        };
        let ghost piece = v@.subrange(pos as int, end as int);
        proof {
            match found {
                Some(q) => {
                    lemma_split_at(rest, '.', q - pos);
                    assert(rest.take(q - pos) =~= piece);
                    assert(rest.skip(q - pos + 1) =~= v@.skip(q + 1));
                },
                None => {
                    assert(rest =~= piece);
                },
            }
            assert(parts[done.len() as int] == piece);
        }
        match parse_usize_range(v, pos, end) {
            None => {
                assert(parse_usize(parts[done.len() as int]) is None);
                return Err(VersionError::InvalidNumber);
            },
            Some(n) => {
                values.push(n);
                proof {
                    done = done.push(piece);
                }
                assert(values@ =~= done.map_values(|d: Seq<char>| parse_usize(d).unwrap()));
            },
        }
        match found {
            Some(q) => {
                assert(parts =~= done + split(v@.skip(q + 1), '.'));
                pos = q + 1;
            },
            None => {
                assert(parts =~= done);
                if values.len() > 4 {
                    return Err(VersionError::TooManyParts);
                }
                assert(values@ =~= parts.map_values(|d: Seq<char>| parse_usize(d).unwrap()));
                return Ok(values);
            },
        }
    }
}

impl HardwareVersion {
    /// Reads the hardware version from a line such as `reMarkable 2.0`.
    pub fn from_str(s: &str) -> (r: Result<HardwareVersion, VersionError>)
        ensures
            r == spec_parse_hardware_version(s@),
    {
        let v = chars_of(s);
        parse_hardware_version_chars(&v)
    }

    /// The hardware version that the content of the device's machine file states,
    /// around which whitespace may stand.
    pub fn get_from_device(machine_file_content: &str) -> (r: Result<HardwareVersion, VersionError>)
        ensures
            r == spec_parse_hardware_version(trim(machine_file_content@)),
    {
        let v = trimmed_chars(machine_file_content);
        parse_hardware_version_chars(&v)
    }
}

impl FirmwareVersion {
    /// The numbers of the version line `s`; `Ok` holds them even where there are
    /// fewer than four, which `from_str` cannot turn into a version.
    pub fn parse_parts(s: &str) -> (r: Result<Vec<usize>, VersionError>)
        ensures
            match r {
                Ok(parts) => spec_version_parts(s@) == Ok::<Seq<usize>, VersionError>(parts@),
                Err(e) => spec_version_parts(s@) == Err::<Seq<usize>, VersionError>(e),
            },
    {
        let v = chars_of(s);
        version_parts_chars(&v)
    }

    /// Reads a firmware version from a line such as
    /// `REMARKABLE_RELEASE_VERSION=3.7.0.1930`.
    pub fn from_str(s: &str) -> (r: Result<FirmwareVersion, VersionError>)
        requires
            !firmware_version_incomplete(s@),
        ensures
            r == spec_parse_firmware_version(s@),
    {
        let parts = Self::parse_parts(s)?;
        Ok(FirmwareVersion { version: parts[0], major: parts[1], minor: parts[2], patch: parts[3] })
    }

    /// The firmware version that the content of the device's update configuration
    /// states, around which whitespace may stand.
    pub fn get_from_device(update_file_content: &str) -> (r: Result<FirmwareVersion, VersionError>)
        requires
            !firmware_version_incomplete(trim(update_file_content@)),
        ensures
            r == spec_parse_firmware_version(trim(update_file_content@)),
    {
        let v = trimmed_chars(update_file_content);
        let parts = version_parts_chars(&v)?;
        Ok(FirmwareVersion { version: parts[0], major: parts[1], minor: parts[2], patch: parts[3] })
    }

    /// The version written `version.major.minor.patch`, as it is displayed.
    pub fn to_version_string(&self) -> (r: String)
        ensures
            r@ == spec_version_text(*self),
    {
        let mut out = String::new();
        push_decimal(&mut out, self.version);
        out.append(dot());
        push_decimal(&mut out, self.major);
        out.append(dot());
        push_decimal(&mut out, self.minor);
        out.append(dot());
        push_decimal(&mut out, self.patch);
        assert(out@ =~= spec_version_text(*self));
        out
    }
}

fn dot() -> (r: &'static str)
    ensures
        r@ == seq!['.'],
{
    proof {
        reveal_strlit(".");
    }
    "."
}

impl VersionInfo {
    /// The versions that the device's machine file and update configuration state.
    /// The hardware is read first: where both are refused, its error is the one returned.
    pub fn get_from_device(machine_file_content: &str, update_file_content: &str) -> (r: Result<
        VersionInfo,
        VersionError,
    >)
        requires
            spec_parse_hardware_version(trim(machine_file_content@)) is Ok
                ==> !firmware_version_incomplete(trim(update_file_content@)),
        ensures
            r == match spec_parse_hardware_version(trim(machine_file_content@)) {
                Err(e) => Err(e),
                Ok(hardware) => match spec_parse_firmware_version(trim(update_file_content@)) {
                    Err(e) => Err(e),
                    Ok(firmware) => Ok(VersionInfo { hardware, firmware }),
                },
            },
    {
        Ok(VersionInfo {
            hardware: HardwareVersion::get_from_device(machine_file_content)?,
            firmware: FirmwareVersion::get_from_device(update_file_content)?,
        })
    }
}

proof fn lemma_split_after_digits(d: Seq<char>, t: Seq<char>)
    requires
        all_digits(d),
    ensures
        split(d + seq!['.'] + t, '.') == seq![d] + split(t, '.'),
{
    let s = d + seq!['.'] + t;
    assert forall|j: int| 0 <= j < d.len() implies s[j] != '.' by {
        assert(s[j] == d[j]);
    }
    assert(is_first_index_of(s, '.', d.len() as int));
    lemma_split_at(s, '.', d.len() as int);
    assert(s.take(d.len() as int) =~= d);
    assert(s.skip(d.len() as int + 1) =~= t);
}

/// Reading back the displayed text of a firmware version, after a key without `=`
/// and an `=` as the device's update configuration writes it, gives the same version.
pub proof fn lemma_version_text_roundtrip(key: Seq<char>, v: FirmwareVersion)
    requires
        !key.contains('='),
    ensures
        !firmware_version_incomplete(key + seq!['='] + spec_version_text(v)),
        spec_parse_firmware_version(key + seq!['='] + spec_version_text(v)) == Ok::<
            FirmwareVersion,
            VersionError,
        >(v),
{
    let d0 = decimal_digits(v.version as nat);
    let d1 = decimal_digits(v.major as nat);
    let d2 = decimal_digits(v.minor as nat);
    let d3 = decimal_digits(v.patch as nat);
    lemma_decimal_digits(v.version as nat);
    lemma_decimal_digits(v.major as nat);
    lemma_decimal_digits(v.minor as nat);
    lemma_decimal_digits(v.patch as nat);
    lemma_parse_decimal_digits(v.version);
    lemma_parse_decimal_digits(v.major);
    lemma_parse_decimal_digits(v.minor);
    lemma_parse_decimal_digits(v.patch);
    let text = spec_version_text(v);
    let s = key + seq!['='] + text;
    assert forall|j: int| 0 <= j < key.len() implies s[j] != '=' by {
        assert(s[j] == key[j]);
    }
    assert(is_first_index_of(s, '=', key.len() as int));
    lemma_split_once_at(s, '=', key.len() as int);
    assert(s.skip(key.len() as int + 1) =~= text);
    let t2 = d2 + seq!['.'] + d3;
    let t1 = d1 + seq!['.'] + t2;
    assert(text =~= d0 + seq!['.'] + t1);
    lemma_split_after_digits(d0, t1);
    lemma_split_after_digits(d1, t2);
    lemma_split_after_digits(d2, d3);
    assert(!d3.contains('.')) by {
        if d3.contains('.') {
            let k = choose|k: int| 0 <= k < d3.len() && d3[k] == '.';
            assert(crate::text::is_digit(d3[k]));
        }
    }
    assert(split(d3, '.') == seq![d3]);
    let parts = split(text, '.');
    assert(parts =~= seq![d0, d1, d2, d3]);
    assert(!(exists|i: int| 0 <= i < parts.len() && (#[trigger] parse_usize(parts[i])) is None))
        by {
        assert forall|i: int| 0 <= i < parts.len() implies (#[trigger] parse_usize(parts[i])) is Some by {
            if i == 0 {
            } else if i == 1 {
            } else if i == 2 {
            } else {
            }
        }
    }
}

} // verus!
