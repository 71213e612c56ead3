//! The interaction input, a TOML document: the check of its version and of
//! the kind of its sections, the pair restrictions it names, and the report
//! of its parsing errors.
use vstd::prelude::*;
use vstd::string::*;

verus! {

/// A value of a TOML document.
#[derive(Debug)]
pub enum Value {
    /// A string.
    String(String),
    /// An integer.
    Integer(i64),
    /// A floating-point number, by its IEEE 754 bits.
    Float(u64),
    /// A boolean.
    Boolean(bool),
    /// A date and time, as written in the document.
    Datetime(String),
    /// An array of values.
    Array(Vec<Value>),
    /// A table of keyed values.
    Table(Table),
}

/// A TOML table: values under string keys. In a parsed document the keys
/// are distinct; `get` takes the first entry with a key.
#[derive(Debug)]
pub struct Table {
    pub entries: Vec<(String, Value)>,
}

/// The value under the first entry of `entries` whose key is `key`.
pub open spec fn entry_value(entries: Seq<(String, Value)>, key: Seq<char>) -> Option<Value>
    decreases entries.len(),
{
    if entries.len() == 0 {
        None
    } else if entries[0].0@ == key {
        Some(entries[0].1)
    } else {
        entry_value(entries.drop_first(), key)
    }
}

/// The value under `key` in `v`, when `v` is a table.
pub open spec fn value_get(v: Value, key: Seq<char>) -> Option<Value> {
    match v {
        Value::Table(t) => entry_value(t.entries@, key),
        _ => None,
    }
}

impl Table {
    /// The value under `key`.
    pub fn get(&self, key: &String) -> (r: Option<&Value>)
        ensures
            match r {
                Some(v) => entry_value(self.entries@, key@) == Some(*v),
                None => entry_value(self.entries@, key@) is None,
            },
    {
        let n = self.entries.len();
        let mut i: usize = 0;
        assert(self.entries@.subrange(0, n as int) =~= self.entries@);
        while i < n
            invariant
                n == self.entries@.len(),
                i <= n,
                entry_value(self.entries@, key@) == entry_value(self.entries@.subrange(i as int, n as int), key@),
            decreases n - i,
        {
            assert(self.entries@.subrange(i as int, n as int).drop_first() =~= self.entries@.subrange(i + 1, n as int));
            if self.entries[i].0 == *key {
                return Some(&self.entries[i].1);
            }
            i = i + 1;
        }
        None
    }
}

impl Value {
    /// The value under `key`, when this value is a table.
    pub fn get(&self, key: &String) -> (r: Option<&Value>)
        ensures
            match r {
                Some(v) => value_get(*self, key@) == Some(*v),
                None => value_get(*self, key@) is None,
            },
    {
        match self {
            Value::Table(t) => t.get(key),
            _ => None,
        }
    }
}

/// Causes of error when reading interaction input.
#[derive(Debug)]
pub enum Error {
    /// The TOML text could not be parsed; the message lists each error.
    TOML(String),
    /// The document's content is wrong: missing sections, bad data types.
    Config {
        /// Error message
        msg: String,
    },
}

impl From<String> for Error {
    fn from(err: String) -> (r: Error) {
        Error::Config { msg: err }
    }
}

impl vstd::std_specs::convert::FromSpecImpl<String> for Error {
    open spec fn obeys_from_spec() -> bool {
        true
    }

    open spec fn from_spec(err: String) -> Error {
        Error::Config { msg: err }
    }
}

impl<'a> From<&'a str> for Error {
    fn from(err: &'a str) -> (r: Error)
        ensures
            r matches Error::Config { msg } && msg@ == err@,
    {
        Error::Config { msg: String::from_str(err) }
    }
}

// Spec code cannot build a `String` from a slice, so this conversion does not
// go by `from_spec`: its result is stated on `from` above.
impl<'a> vstd::std_specs::convert::FromSpecImpl<&'a str> for Error {
    open spec fn obeys_from_spec() -> bool {
        false
    }

    open spec fn from_spec(err: &'a str) -> Error {
        arbitrary()
    }
}

/// Convert a TOML table to a Rust type. This is the trait to implement in
/// order to read a type from the input files.
pub trait FromToml: Sized {
    /// Does the conversion from `table` to `Self`.
    fn from_toml(table: &Table) -> Result<Self, Error>;
}

/// The text of a decimal digit `d < 10`.
pub open spec fn digit_text(d: nat) -> Seq<char> {
    if d == 0 {
        "0"@
    } else if d == 1 {
        "1"@
    } else if d == 2 {
        "2"@
    } else if d == 3 {
        "3"@
    } else if d == 4 {
        "4"@
    } else if d == 5 {
        "5"@
    } else if d == 6 {
        "6"@
    } else if d == 7 {
        "7"@
    } else if d == 8 {
        "8"@
    } else {
        "9"@
    }
}

/// The decimal text of `n`, without leading zeros.
pub open spec fn decimal(n: nat) -> Seq<char>
    decreases n,
{
    if n < 10 {
        digit_text(n)
    } else {
        decimal(n / 10) + digit_text(n % 10)
    }
}

/// The decimal text of `n`, with a minus sign when negative.
pub open spec fn integer_text(n: int) -> Seq<char> {
    if n < 0 {
        "-"@ + decimal((-n) as nat)
    } else {
        decimal(n as nat)
    }
}

fn digit_str(d: u128) -> (r: &'static str)
    requires
        d < 10,
    ensures
        r@ == digit_text(d as nat),
{
    if d == 0 {
        "0"
    } else if d == 1 {
        "1"
    } else if d == 2 {
        "2"
    } else if d == 3 {
        "3"
    } else if d == 4 {
        "4"
    } else if d == 5 {
        "5"
    } else if d == 6 {
        "6"
    } else if d == 7 {
        "7"
    } else if d == 8 {
        "8"
    } else {
        "9"
    }
}

/// Appends the decimal text of `n` to `s`.
fn push_decimal(s: &mut String, n: u128)
    ensures
        final(s)@ == old(s)@ + decimal(n as nat),
    decreases n,
{
    if n >= 10 {
        push_decimal(s, n / 10);
    }
    s.append(digit_str(n % 10));
    proof {
        if n >= 10 {
            assert(final(s)@ =~= old(s)@ + decimal(n as nat));
        }
    }
}

/// Appends the decimal text of `n` to `s`, with a minus sign when negative.
fn push_integer(s: &mut String, n: i64)
    ensures
        final(s)@ == old(s)@ + integer_text(n as int),
{
    if n < 0 {
        s.append("-");
        push_decimal(s, (0 - (n as i128)) as u128);
        assert(final(s)@ =~= old(s)@ + integer_text(n as int));
    } else {
        push_decimal(s, n as u128);
    }
}

/// The error message of `validate` on `config`, or `None` when the document
/// is one that can be read: its `input.potentials.version` is the integer 1.
pub open spec fn validation_message(config: Table) -> Option<Seq<char>> {
    let missing = "Missing 'potentials.version' key in 'input' table"@;
    match entry_value(config.entries@, "input"@) {
        None => Some("Missing 'input' table"@),
        Some(input) => match value_get(input, "potentials"@) {
            None => Some(missing),
            Some(potentials) => match value_get(potentials, "version"@) {
                None => Some(missing),
                Some(Value::Integer(v)) => if v == 1 {
                    None
                } else {
                    Some("Only version 1 of input can be read, got "@ + integer_text(v as int))
                },
                Some(_) => Some("'input.potentials.version' must be an integer"@),
            },
        },
    }
}

/// Checks that `config` holds an `input` table whose `potentials.version` is
/// the integer 1, the only version of the input that can be read.
pub fn validate(config: &Table) -> (r: Result<(), Error>)
    ensures
        match validation_message(*config) {
            None => r is Ok,
            Some(m) => r matches Err(Error::Config { msg }) && msg@ == m,
        },
{
    let input = match config.get(&String::from_str("input")) {
        Some(input) => input,
        None => {
            return Err(Error::from(String::from_str("Missing 'input' table")));
        },
    };
    let missing = "Missing 'potentials.version' key in 'input' table";
    let potentials = match input.get(&String::from_str("potentials")) {
        Some(potentials) => potentials,
        None => {
            return Err(Error::from(String::from_str(missing)));
        },
    };
    let version = match potentials.get(&String::from_str("version")) {
        Some(version) => version,
        None => {
            return Err(Error::from(String::from_str(missing)));
        },
    };
    match version {
        Value::Integer(v) => {
            if *v != 1 {
                let mut msg = String::from_str("Only version 1 of input can be read, got ");
                push_integer(&mut msg, *v);
                return Err(Error::from(msg));
            }
            Ok(())
        },
        _ => Err(Error::from(String::from_str("'input.potentials.version' must be an integer"))),
    }
}

/// Whether `config` has a section `name` of the wrong kind: not an array
/// when `array`, else not a table. An absent section is not wrong.
pub open spec fn section_wrong(config: Table, name: Seq<char>, array: bool) -> bool {
    match entry_value(config.entries@, name) {
        None => false,
        Some(Value::Array(_)) => !array,
        Some(Value::Table(_)) => array,
        Some(_) => true,
    }
}

/// The error message for the first section of `config` of the wrong kind,
/// in the order in which the sections are read, or `None` when each section
/// is of its kind: `pairs`, `bonds`, `angles` and `dihedrals` are arrays,
/// `coulomb` and `charges` are tables.
pub open spec fn sections_message(config: Table) -> Option<Seq<char>> {
    if section_wrong(config, "pairs"@, true) {
        Some("The 'pairs' section must be an array"@)
    } else if section_wrong(config, "bonds"@, true) {
        Some("The 'bonds' section must be an array"@)
    } else if section_wrong(config, "angles"@, true) {
        Some("The 'angles' section must be an array"@)
    } else if section_wrong(config, "dihedrals"@, true) {
        Some("The 'dihedrals' section must be an array"@)
    } else if section_wrong(config, "coulomb"@, false) {
        Some("The 'coulomb' section must be a table"@)
    } else if section_wrong(config, "charges"@, false) {
        Some("The 'charges' section must be a table"@)
    } else {
        None
    }
}

fn is_section_wrong(config: &Table, name: &str, array: bool) -> (r: bool)
    ensures
        r == section_wrong(*config, name@, array),
{
    match config.get(&String::from_str(name)) {
        None => false,
        Some(Value::Array(_)) => !array,
        Some(Value::Table(_)) => array,
        Some(_) => true,
    }
}

/// Checks the kind of each interaction section of `config` that is present:
/// `pairs`, `bonds`, `angles` and `dihedrals` must be arrays, `coulomb` and
/// `charges` tables. The first section of the wrong kind gives the error.
pub fn check_sections(config: &Table) -> (r: Result<(), Error>)
    ensures
        match sections_message(*config) {
            None => r is Ok,
            Some(m) => r matches Err(Error::Config { msg }) && msg@ == m,
        },
{
    if is_section_wrong(config, "pairs", true) {
        Err(Error::from("The 'pairs' section must be an array"))
    } else if is_section_wrong(config, "bonds", true) {
        Err(Error::from("The 'bonds' section must be an array"))
    } else if is_section_wrong(config, "angles", true) {
        Err(Error::from("The 'angles' section must be an array"))
    } else if is_section_wrong(config, "dihedrals", true) {
        Err(Error::from("The 'dihedrals' section must be an array"))
    } else if is_section_wrong(config, "coulomb", false) {
        Err(Error::from("The 'coulomb' section must be a table"))
    } else if is_section_wrong(config, "charges", false) {
        Err(Error::from("The 'charges' section must be a table"))
    } else {
        Ok(())
    }
}

/// An error reported by the TOML parser: its description, and the line where
/// it stands, counted from zero.
pub struct ParserError {
    pub desc: String,
    pub line: usize,
}

/// One error in a report: its description and its line, counted from one.
pub open spec fn error_text(e: ParserError) -> Seq<char> {
    e.desc@ + " at line "@ + decimal(e.line as nat + 1)
}

/// The errors' texts, joined by a new line and an indent.
pub open spec fn joined_errors(errors: Seq<ParserError>) -> Seq<char>
    decreases errors.len(),
{
    if errors.len() == 0 {
        Seq::empty()
    } else if errors.len() == 1 {
        error_text(errors[0])
    } else {
        joined_errors(errors.drop_last()) + "\n    "@ + error_text(errors.last())
    }
}

/// The report of the parsing errors `errors`.
pub open spec fn error_report(errors: Seq<ParserError>) -> Seq<char> {
    "TOML parsing error"@ + (if errors.len() != 1 {
        "s"@
    } else {
        Seq::empty()
    }) + ": "@ + joined_errors(errors)
}

/// Writes the report of the parsing errors `errors`, one per line.
pub fn toml_error_to_string(errors: &[ParserError]) -> (r: String)
    requires
        errors@.len() > 0,
    ensures
        r@ == error_report(errors@),
{
    let n = errors.len();
    let mut joined = String::new();
    let mut i: usize = 0;
    while i < n
        invariant
            n == errors@.len(),
            i <= n,
            joined@ == joined_errors(errors@.subrange(0, i as int)),
        decreases n - i,
    {
        let ghost before = joined@;
        if i > 0 {
            joined.append("\n    ");
        }
        joined.append(errors[i].desc.as_str());
        joined.append(" at line ");
        push_decimal(&mut joined, errors[i].line as u128 + 1);
        proof {
            let done = errors@.subrange(0, i + 1);
            assert(done.drop_last() =~= errors@.subrange(0, i as int));
            assert(done.last() == errors@[i as int]);
            if i == 0 {
                assert(joined@ =~= error_text(errors@[0]));
            } else {
                assert(joined@ =~= before + "\n    "@ + error_text(errors@[i as int]));
            }
        }
        i = i + 1;
    }
    assert(errors@.subrange(0, n as int) =~= errors@);
    let mut report = String::from_str("TOML parsing error");
    if n != 1 {
        report.append("s");
    }
    report.append(": ");
    report.append(joined.as_str());
    assert(report@ =~= error_report(errors@));
    report
}

/// Restriction on the pairs of particles that a pair potential acts on.
#[derive(Debug, Clone, Copy, PartialEq, Eq, Structural)]
pub enum PairRestriction {
    /// No restriction: every pair.
    NoRestriction,
    /// Only pairs of particles in the same molecule.
    IntraMolecular,
    /// Only pairs of particles in different molecules.
    InterMolecular,
    /// Every pair but those that are bonded.
    Exclude12,
    /// Every pair but those bonded or in one angle.
    Exclude13,
    /// Every pair but those bonded, in one angle or in one dihedral angle.
    Exclude14,
    /// Every pair but those bonded or in one angle; pairs in one dihedral
    /// angle are scaled by `scaling`, a floating-point number held by its
    /// IEEE 754 bits.
    Scale14 {
        scaling: u64,
    },
}

/// The restriction named `name`, or the error message for that name.
pub open spec fn restriction_named(name: Seq<char>) -> Result<PairRestriction, Seq<char>> {
    if name == "none"@ {
        Ok(PairRestriction::NoRestriction)
    } else if name == "intramolecular"@ || name == "IntraMolecular"@ || name == "intra-molecular"@ {
        Ok(PairRestriction::IntraMolecular)
    } else if name == "intermolecular"@ || name == "InterMolecular"@ || name == "inter-molecular"@ {
        Ok(PairRestriction::InterMolecular)
    } else if name == "exclude12"@ {
        Ok(PairRestriction::Exclude12)
    } else if name == "exclude13"@ {
        Ok(PairRestriction::Exclude13)
    } else if name == "exclude14"@ {
        Ok(PairRestriction::Exclude14)
    } else if name == "scale14"@ {
        Err("'scale14' restriction must be a table"@)
    } else {
        Err("Unknown restriction '"@ + name + "'"@)
    }
}

/// The restriction given by the `restriction` entry of `config`: `None`
/// without such an entry; else the one that the entry names, or the error
/// message.
pub open spec fn restriction_of(config: Table) -> Result<Option<PairRestriction>, Seq<char>> {
    match entry_value(config.entries@, "restriction"@) {
        None => Ok(None),
        Some(Value::String(name)) => match restriction_named(name@) {
            Ok(restriction) => Ok(Some(restriction)),
            Err(m) => Err(m),
        },
        Some(Value::Table(t)) => if t.entries@.len() != 1 || entry_value(t.entries@, "scale14"@) is None {
            Err("Restriction table must be 'scale14'"@)
        } else {
            match entry_value(t.entries@, "scale14"@) {
                Some(Value::Float(scaling)) => Ok(Some(PairRestriction::Scale14 { scaling })),
                _ => Err("'scale14' parameter must be a float"@),
            }
        },
        Some(_) => Err("Restriction must be a table or a string"@),
    }
}

fn is_named(name: &String, text: &str) -> (r: bool)
    ensures
        r == (name@ == text@),
{
    *name == String::from_str(text)
}

fn restriction_error(text: &str) -> (r: Result<Option<PairRestriction>, Error>)
    ensures
        r matches Err(Error::Config { msg }) && msg@ == text@,
{
    Err(Error::from(String::from_str(text)))
}

/// Reads the restriction given by the `restriction` entry of `config`: a
/// string naming it, or a table holding the `scale14` factor.
pub fn read_restriction(config: &Table) -> (r: Result<Option<PairRestriction>, Error>)
    ensures
        match restriction_of(*config) {
            Ok(restriction) => r == Ok::<Option<PairRestriction>, Error>(restriction),
            Err(m) => r matches Err(Error::Config { msg }) && msg@ == m,
        },
{
    let restriction = match config.get(&String::from_str("restriction")) {
        Some(restriction) => restriction,
        None => {
            return Ok(None);
        },
    };
    match restriction {
        Value::String(name) => {
            if is_named(name, "none") {
                Ok(Some(PairRestriction::NoRestriction))
            } else if is_named(name, "intramolecular") || is_named(name, "IntraMolecular")
                || is_named(name, "intra-molecular") {
                Ok(Some(PairRestriction::IntraMolecular))
            } else if is_named(name, "intermolecular") || is_named(name, "InterMolecular")
                || is_named(name, "inter-molecular") {
                Ok(Some(PairRestriction::InterMolecular))
            } else if is_named(name, "exclude12") {
                Ok(Some(PairRestriction::Exclude12))
            } else if is_named(name, "exclude13") {
                Ok(Some(PairRestriction::Exclude13))
            } else if is_named(name, "exclude14") {
                Ok(Some(PairRestriction::Exclude14))
            } else if is_named(name, "scale14") {
                restriction_error("'scale14' restriction must be a table")
            } else {
                let mut msg = String::from_str("Unknown restriction '");
                msg.append(name.as_str());
                msg.append("'");
                Err(Error::from(msg))
            }
        },
        Value::Table(table) => {
            let scale = table.get(&String::from_str("scale14"));
            if table.entries.len() != 1 || scale.is_none() {
                return restriction_error("Restriction table must be 'scale14'");
            }
            match scale {
                Some(Value::Float(scaling)) => Ok(Some(PairRestriction::Scale14 { scaling: *scaling })),
                _ => restriction_error("'scale14' parameter must be a float"),
            }
        },
        _ => restriction_error("Restriction must be a table or a string"),
    }
}

/// Checks an interaction document from the outcome of its parse: the parse
/// errors when it failed, else the document's version, then the kind of its
/// sections. Hands back the document when all of them hold.
pub fn check_interactions(parsed: Result<Table, Vec<ParserError>>) -> (r: Result<Table, Error>)
    requires
        parsed matches Err(errors) ==> errors@.len() > 0,
    ensures
        match parsed {
            Err(errors) => r matches Err(Error::TOML(m)) && m@ == error_report(errors@),
            Ok(config) => match validation_message(config) {
                Some(m) => r matches Err(Error::Config { msg }) && msg@ == m,
                None => match sections_message(config) {
                    Some(m) => r matches Err(Error::Config { msg }) && msg@ == m,
                    None => r matches Ok(t) && t == config,
                },
            },
        },
{
    match parsed {
        Err(errors) => Err(Error::TOML(toml_error_to_string(errors.as_slice()))),
        Ok(config) => {
            match validate(&config) {
                Err(e) => {
                    return Err(e);
                },
                Ok(()) => {},
            }
            match check_sections(&config) {
                Err(e) => Err(e),
                Ok(()) => Ok(config),
            }
        },
    }
}

} // verus!
