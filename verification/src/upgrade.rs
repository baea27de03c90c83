//! The progress that `apt-get full-upgrade --show-progress` reports, line by line.

use crate::text;
use vstd::prelude::*;
use vstd::slice::slice_subrange;
use vstd::string::StrSliceExecFns;
use vstd::string::StringExecFns;

verus! {

/// One step of an upgrade.
#[derive(Clone, Debug, Eq, PartialEq)]
pub enum AptUpgradeEvent {
    Processing { package: String },
    Progress { percent: u8 },
    SettingUp { package: String },
    Unpacking { package: String, version: String, over: String },
    WaitingOnLock,
}

/// What an [`AptUpgradeEvent`] holds, as a mathematical value.
pub enum UpgradeEventView {
    Processing { package: Seq<char> },
    Progress { percent: u8 },
    SettingUp { package: Seq<char> },
    Unpacking { package: Seq<char>, version: Seq<char>, over: Seq<char> },
    WaitingOnLock,
}

impl View for AptUpgradeEvent {
    type V = UpgradeEventView;

    open spec fn view(&self) -> UpgradeEventView {
        match self {
            AptUpgradeEvent::Processing { package } => UpgradeEventView::Processing {
                package: package@,
            },
            AptUpgradeEvent::Progress { percent } => UpgradeEventView::Progress {
                percent: *percent,
            },
            AptUpgradeEvent::SettingUp { package } => UpgradeEventView::SettingUp {
                package: package@,
            },
            AptUpgradeEvent::Unpacking { package, version, over } => UpgradeEventView::Unpacking {
                package: package@,
                version: version@,
                over: over@,
            },
            AptUpgradeEvent::WaitingOnLock => UpgradeEventView::WaitingOnLock,
        }
    }
}

/// The view of an event that may be missing.
pub open spec fn event_view(r: Result<AptUpgradeEvent, ()>) -> Option<UpgradeEventView> {
    match r {
        Ok(event) => Some(event@),
        Err(_) => None,
    }
}

/// The key and value texts of a list of pairs.
pub open spec fn pairs_view(pairs: Seq<(String, String)>) -> Seq<(Seq<char>, Seq<char>)> {
    Seq::new(pairs.len(), |i: int| (pairs[i].0@, pairs[i].1@))
}

/// The key and value texts of a list of pairs with fixed keys.
pub open spec fn entries_view(entries: Seq<(&'static str, String)>) -> Seq<(Seq<char>, Seq<char>)> {
    Seq::new(entries.len(), |i: int| (entries[i].0@, entries[i].1@))
}

/// The key-value pairs that stand for an event on the message bus, in the order in
/// which they are written.
pub open spec fn dbus_map(event: UpgradeEventView) -> Seq<(Seq<char>, Seq<char>)> {
    match event {
        UpgradeEventView::Processing { package } => seq![("processing_package"@, package)],
        UpgradeEventView::Progress { percent } => seq![
            ("percent"@, text::decimal_text(percent as nat)),
        ],
        UpgradeEventView::SettingUp { package } => seq![("setting_up"@, package)],
        UpgradeEventView::Unpacking { package, version, over } => seq![
            ("unpacking"@, package),
            ("version"@, version),
            ("over"@, over),
        ],
        UpgradeEventView::WaitingOnLock => seq![("waiting"@, Seq::empty())],
    }
}

/// The three fields of an unpacking event, as far as they have been read.
pub struct UnpackingFields {
    pub over: Option<Seq<char>>,
    pub version: Option<Seq<char>>,
    pub package: Option<Seq<char>>,
}

/// `fields` with the field that `key` names set to `value`; nothing for a key that
/// names no field. A field that is set again takes the later value.
pub open spec fn with_field(fields: UnpackingFields, key: Seq<char>, value: Seq<char>) -> Option<
    UnpackingFields,
> {
    if key == "over"@ {
        Some(UnpackingFields { over: Some(value), ..fields })
    } else if key == "version"@ {
        Some(UnpackingFields { version: Some(value), ..fields })
    } else if key == "unpacking"@ {
        Some(UnpackingFields { package: Some(value), ..fields })
    } else {
        None
    }
}

/// The unpacking event that the first three pairs of `pairs` stand for: each key must
/// name a field, and the three must name all of them.
pub open spec fn unpacking_of(pairs: Seq<(Seq<char>, Seq<char>)>) -> Option<UpgradeEventView> {
    let none = UnpackingFields { over: None, version: None, package: None };
    if pairs.len() < 3 {
        None
    } else {
        match with_field(none, pairs[0].0, pairs[0].1) {
            None => None,
            Some(one) => match with_field(one, pairs[1].0, pairs[1].1) {
                None => None,
                Some(two) => match with_field(two, pairs[2].0, pairs[2].1) {
                    None => None,
                    Some(all) => if all.over is Some && all.version is Some && all.package is Some {
                        Some(
                            UpgradeEventView::Unpacking {
                                package: all.package->0,
                                version: all.version->0,
                                over: all.over->0,
                            },
                        )
                    } else {
                        None
                    },
                },
            },
        }
    }
}

/// The event that a list of key-value pairs stands for. The first pair decides; only
/// an unpacking event reads two more. Pairs after those are ignored.
pub open spec fn from_dbus(pairs: Seq<(Seq<char>, Seq<char>)>) -> Option<UpgradeEventView> {
    if pairs.len() == 0 {
        None
    } else if pairs[0].0 == "waiting"@ {
        Some(UpgradeEventView::WaitingOnLock)
    } else if pairs[0].0 == "processing_package"@ {
        Some(UpgradeEventView::Processing { package: pairs[0].1 })
    } else if pairs[0].0 == "percent"@ {
        match text::parse_unsigned(pairs[0].1, u8::MAX as int) {
            Some(percent) => Some(UpgradeEventView::Progress { percent: percent as u8 }),
            None => None,
        }
    } else if pairs[0].0 == "setting_up"@ {
        Some(UpgradeEventView::SettingUp { package: pairs[0].1 })
    } else {
        unpacking_of(pairs)
    }
}

/// `s` with spaces before it, as many as it lacks to `width` characters.
pub open spec fn padded(s: Seq<char>, width: nat) -> Seq<char>
    decreases width - s.len(),
{
    if s.len() < width {
        padded(seq![' '] + s, width)
    } else {
        s
    }
}

/// The line that describes an event to a reader.
pub open spec fn description(event: UpgradeEventView) -> Seq<char> {
    match event {
        UpgradeEventView::Processing { package } => "processing triggers for "@ + package,
        UpgradeEventView::Progress { percent } => "progress: ["@ + padded(
            text::decimal_text(percent as nat),
            3,
        ) + "%]"@,
        UpgradeEventView::SettingUp { package } => "setting up "@ + package,
        UpgradeEventView::Unpacking { package, version, over } => "unpacking "@ + package + " ("@
            + version + ") over ("@ + over + ")"@,
        UpgradeEventView::WaitingOnLock => "waiting on a process holding the apt lock files"@,
    }
}

/// Whether `word` can lose its first and last character as a bracketed version
/// does: it holds at least three characters, and the two at its ends are ASCII.
pub open spec fn is_bracketed(word: Seq<char>) -> bool {
    word.len() >= 3 && (word.first() as u32) < 0x80 && (word.last() as u32) < 0x80
}

/// `word` without its first and last character.
pub open spec fn unbracketed(word: Seq<char>) -> Seq<char> {
    word.subrange(1, word.len() - 1)
}

/// The word number `n` of `s`, counting from zero, if `s` has that many.
pub open spec fn word_of(s: Seq<char>, n: nat) -> Option<Seq<char>> {
    match text::nth_word(s, n, false) {
        Some((start, end)) => Some(s.subrange(start, end)),
        None => None,
    }
}

/// The percentage in what follows `Progress: [`: the number that stands before the
/// first `%`, once the whitespace around the text is dropped.
pub open spec fn progress_of(rest: Seq<char>) -> Option<UpgradeEventView> {
    let progress = text::trimmed(rest);
    let at = text::index_of(progress, 0, '%');
    if at < progress.len() {
        match text::parse_unsigned(progress.take(at), u8::MAX as int) {
            Some(percent) => Some(UpgradeEventView::Progress { percent: percent as u8 }),
            None => None,
        }
    } else {
        None
    }
}

/// The event in what follows `Unpacking `: the package, its version in brackets, a
/// word that is skipped, and the version that it replaces, in brackets.
pub open spec fn unpacking_line(rest: Seq<char>) -> Option<UpgradeEventView> {
    if word_of(rest, 0) is Some && word_of(rest, 1) is Some && word_of(rest, 3) is Some
        && is_bracketed(word_of(rest, 1)->0) && is_bracketed(word_of(rest, 3)->0) {
        Some(
            UpgradeEventView::Unpacking {
                package: word_of(rest, 0)->0,
                version: unbracketed(word_of(rest, 1)->0),
                over: unbracketed(word_of(rest, 3)->0),
            },
        )
    } else {
        None
    }
}

/// The event that a line of the upgrade's output reports, if it reports one. The
/// words with which the line starts decide which kind of event is looked for.
pub open spec fn parse_event(input: Seq<char>) -> Option<UpgradeEventView> {
    if let Some(rest) = text::strip_prefix(input, "Progress: ["@) {
        progress_of(rest)
    } else if let Some(rest) = text::strip_prefix(input, "Processing triggers for "@) {
        match word_of(rest, 0) {
            Some(package) => Some(UpgradeEventView::Processing { package }),
            None => None,
        }
    } else if let Some(rest) = text::strip_prefix(input, "Setting up "@) {
        match word_of(rest, 0) {
            Some(package) => Some(UpgradeEventView::SettingUp { package }),
            None => None,
        }
    } else if let Some(rest) = text::strip_prefix(input, "Unpacking "@) {
        unpacking_line(rest)
    } else {
        None
    }
}

/// Sets the field that `key` names to `value`, and fails on a key that names none.
pub fn match_field(
    over: &mut Option<String>,
    version: &mut Option<String>,
    package: &mut Option<String>,
    key: &str,
    value: String,
) -> (r: Result<(), ()>)
    ensures
        r is Ok <==> (key@ == "over"@ || key@ == "version"@ || key@ == "unpacking"@),
        *final(over) == if key@ == "over"@ {
            Some(value)
        } else {
            *old(over)
        },
        *final(version) == if key@ != "over"@ && key@ == "version"@ {
            Some(value)
        } else {
            *old(version)
        },
        *final(package) == if key@ != "over"@ && key@ != "version"@ && key@ == "unpacking"@ {
            Some(value)
        } else {
            *old(package)
        },
{
    if text::equals(key, "over") {
        *over = Some(value);
        Ok(())
    } else if text::equals(key, "version") {
        *version = Some(value);
        Ok(())
    } else if text::equals(key, "unpacking") {
        *package = Some(value);
        Ok(())
    } else {
        Err(())
    }
}

/// The fields that three options hold, as texts.
pub open spec fn fields_view(
    over: Option<String>,
    version: Option<String>,
    package: Option<String>,
) -> UnpackingFields {
    UnpackingFields {
        over: match over {
            Some(s) => Some(s@),
            None => None,
        },
        version: match version {
            Some(s) => Some(s@),
            None => None,
        },
        package: match package {
            Some(s) => Some(s@),
            None => None,
        },
    }
}

impl AptUpgradeEvent {
    /// The key-value pairs that stand for this event on the message bus.
    pub fn into_dbus_map(self) -> (entries: Vec<(&'static str, String)>)
        ensures
            entries_view(entries@) == dbus_map(self@),
    {
        let mut entries: Vec<(&'static str, String)> = Vec::new();
        match self {
            AptUpgradeEvent::Processing { package } => {
                entries.push(("processing_package", package));
            },
            AptUpgradeEvent::Progress { percent } => {
                entries.push(("percent", text::decimal(percent as u64)));
            },
            AptUpgradeEvent::SettingUp { package } => {
                entries.push(("setting_up", package));
            },
            AptUpgradeEvent::Unpacking { package, version, over } => {
                entries.push(("unpacking", package));
                entries.push(("version", version));
                entries.push(("over", over));
            },
            AptUpgradeEvent::WaitingOnLock => {
                entries.push(("waiting", String::new()));
            },
        }
        proof {
            assert(entries_view(entries@) =~= dbus_map(self@));
        }
        entries
    }

    /// Reads an event from the key-value pairs that stand for it on the message bus.
    pub fn from_dbus_map(map: &[(String, String)]) -> (r: Result<Self, ()>)
        ensures
            event_view(r) == from_dbus(pairs_view(map@)),
    {
        if map.len() == 0 {
            return Err(());
        }
        let ghost pairs = pairs_view(map@);
        let key = map[0].0.as_str();
        let value = map[0].1.clone();
        proof {
            assert(pairs[0] == (map@[0].0@, map@[0].1@));
        }
        if text::equals(key, "waiting") {
            Ok(AptUpgradeEvent::WaitingOnLock)
        } else if text::equals(key, "processing_package") {
            Ok(AptUpgradeEvent::Processing { package: value })
        } else if text::equals(key, "percent") {
            let digits = text::to_chars(value.as_str());
            match text::parse_u8(digits.as_slice()) {
                Some(percent) => Ok(AptUpgradeEvent::Progress { percent }),
                None => Err(()),
            }
        } else if text::equals(key, "setting_up") {
            Ok(AptUpgradeEvent::SettingUp { package: value })
        } else {
            if map.len() < 3 {
                return Err(());
            }
            proof {
                assert(pairs[1] == (map@[1].0@, map@[1].1@));
                assert(pairs[2] == (map@[2].0@, map@[2].1@));
            }
            let mut over: Option<String> = None;
            let mut version: Option<String> = None;
            let mut package: Option<String> = None;
            if match_field(&mut over, &mut version, &mut package, key, value).is_err() {
                return Err(());
            }
            let ghost one = fields_view(over, version, package);
            if match_field(
                &mut over,
                &mut version,
                &mut package,
                map[1].0.as_str(),
                map[1].1.clone(),
            ).is_err() {
                return Err(());
            }
            let ghost two = fields_view(over, version, package);
            if match_field(
                &mut over,
                &mut version,
                &mut package,
                map[2].0.as_str(),
                map[2].1.clone(),
            ).is_err() {
                return Err(());
            }
            proof {
                let none = UnpackingFields { over: None, version: None, package: None };
                assert(with_field(none, pairs[0].0, pairs[0].1) == Some(one));
                assert(with_field(one, pairs[1].0, pairs[1].1) == Some(two));
                assert(with_field(two, pairs[2].0, pairs[2].1) == Some(
                    fields_view(over, version, package),
                ));
            }
            match (over, version, package) {
                (Some(over), Some(version), Some(package)) => Ok(
                    AptUpgradeEvent::Unpacking { package, version, over },
                ),
                _ => Err(()),
            }
        }
    }

    /// The line that describes this event to a reader.
    pub fn to_string(&self) -> (line: String)
        ensures
            line@ == description(self@),
    {
        match self {
            AptUpgradeEvent::Processing { package } => {
                let mut line = String::from_str("processing triggers for ");
                line.append(package.as_str());
                line
            },
            AptUpgradeEvent::Progress { percent } => {
                let digits = text::decimal(*percent as u64);
                let mut line = String::from_str("progress: [");
                let width = digits.as_str().unicode_len();
                let ghost shown = digits@;
                let mut lacking: usize = if width < 3 {
                    3 - width
                } else {
                    0
                };
                let mut padding = String::new();
                while lacking > 0
                    invariant
                        shown == digits@,
                        (padding@ + shown).len() + lacking == if shown.len() < 3 {
                            3
                        } else {
                            shown.len()
                        },
                        padded(shown, 3) == padded(padding@ + shown, 3),
                    decreases lacking,
                {
                    let ghost before = padding@;
                    let mut longer = String::from_str(" ");
                    proof {
                        reveal_strlit(" ");
                    }
                    longer.append(padding.as_str());
                    padding = longer;
                    lacking -= 1;
                    proof {
                        assert(padding@ + shown =~= seq![' '] + (before + shown));
                    }
                }
                proof {
                    assert(padded(padding@ + shown, 3) == padding@ + shown);
                }
                line.append(padding.as_str());
                line.append(digits.as_str());
                line.append("%]");
                proof {
                    assert(line@ =~= "progress: ["@ + padded(shown, 3) + "%]"@);
                }
                line
            },
            AptUpgradeEvent::SettingUp { package } => {
                let mut line = String::from_str("setting up ");
                line.append(package.as_str());
                line
            },
            AptUpgradeEvent::Unpacking { package, version, over } => {
                let mut line = String::from_str("unpacking ");
                line.append(package.as_str());
                line.append(" (");
                line.append(version.as_str());
                line.append(") over (");
                line.append(over.as_str());
                line.append(")");
                line
            },
            AptUpgradeEvent::WaitingOnLock => String::from_str(
                "waiting on a process holding the apt lock files",
            ),
        }
    }

    /// Reads one line of the upgrade's output.
    pub fn parse(input: &str) -> (r: Result<Self, ()>)
        ensures
            event_view(r) == parse_event(input@),
    {
        let owned = text::to_chars(input);
        let chars = owned.as_slice();
        if let Some(n) = text::prefix_len(chars, "Progress: [") {
            read_progress(chars, n)
        } else if let Some(n) = text::prefix_len(chars, "Processing triggers for ") {
            match read_word(input, chars, n) {
                Some(package) => Ok(AptUpgradeEvent::Processing { package }),
                None => Err(()),
            }
        } else if let Some(n) = text::prefix_len(chars, "Setting up ") {
            match read_word(input, chars, n) {
                Some(package) => Ok(AptUpgradeEvent::SettingUp { package }),
                None => Err(()),
            }
        } else if let Some(n) = text::prefix_len(chars, "Unpacking ") {
            read_unpacking(input, chars, n)
        } else {
            Err(())
        }
    }
}

/// Reads the percentage in what follows the first `n` characters.
fn read_progress(chars: &[char], n: usize) -> (r: Result<AptUpgradeEvent, ()>)
    requires
        n <= chars@.len(),
    ensures
        event_view(r) == progress_of(chars@.skip(n as int)),
{
    let rest = slice_subrange(chars, n, chars.len());
    let start = text::trim_start_index(rest);
    let end = text::trim_end_index(rest);
    let progress = if start <= end {
        slice_subrange(rest, start, end)
    } else {
        slice_subrange(rest, 0, 0)
    };
    proof {
        assert(rest@ =~= chars@.skip(n as int));
        assert(progress@ =~= text::trimmed(rest@));
    }
    let at = text::find_char(progress, 0, '%');
    if at < progress.len() {
        proof {
            assert(progress@.take(at as int) =~= progress@.subrange(0, at as int));
        }
        match text::parse_u8(slice_subrange(progress, 0, at)) {
            Some(percent) => Ok(AptUpgradeEvent::Progress { percent }),
            None => Err(()),
        }
    } else {
        Err(())
    }
}

/// Reads the first word of what follows the first `n` characters.
fn read_word(input: &str, chars: &[char], n: usize) -> (r: Option<String>)
    requires
        chars@ == input@,
        n <= chars@.len(),
    ensures
        match r {
            Some(word) => word_of(input@.skip(n as int), 0) == Some(word@),
            None => word_of(input@.skip(n as int), 0) is None,
        },
{
    let rest = slice_subrange(chars, n, chars.len());
    proof {
        assert(rest@ =~= input@.skip(n as int));
    }
    match text::next_word(rest, 0, false) {
        Some((a, b)) => {
            let word = input.substring_char(n + a, n + b).to_owned();
            proof {
                assert(input@.subrange(n + a, n + b) =~= rest@.subrange(a as int, b as int));
            }
            Some(word)
        },
        None => None,
    }
}

/// The bounds of the words number 0, 1 and 3 of the text, if it has four words.
fn four_words(rest: &[char]) -> (r: Option<((usize, usize), (usize, usize), (usize, usize))>)
    ensures
        match r {
            Some((w0, w1, w3)) => {
                &&& text::nth_word(rest@, 0, false) == Some((w0.0 as int, w0.1 as int))
                &&& text::nth_word(rest@, 1, false) == Some((w1.0 as int, w1.1 as int))
                &&& text::nth_word(rest@, 3, false) == Some((w3.0 as int, w3.1 as int))
                &&& w0.0 < w0.1 <= rest@.len()
                &&& w1.0 < w1.1 <= rest@.len()
                &&& w3.0 < w3.1 <= rest@.len()
            },
            None => text::nth_word(rest@, 0, false) is None || text::nth_word(rest@, 1, false)
                is None || text::nth_word(rest@, 3, false) is None,
        },
{
    let w0 = match text::word(rest, 0, false) {
        Some(bounds) => bounds,
        None => {
            return None;
        },
    };
    let w1 = match text::word(rest, 1, false) {
        Some(bounds) => bounds,
        None => {
            return None;
        },
    };
    let w3 = match text::word(rest, 3, false) {
        Some(bounds) => bounds,
        None => {
            return None;
        },
    };
    Some((w0, w1, w3))
}

/// Whether the word of `rest` between `start` and `end` is bracketed.
fn bracketed(rest: &[char], start: usize, end: usize) -> (r: bool)
    requires
        start < end <= rest@.len(),
    ensures
        r == is_bracketed(rest@.subrange(start as int, end as int)),
{
    end - start >= 3 && (rest[start] as u32) < 0x80 && (rest[end - 1] as u32) < 0x80
}

/// Reads the unpacking event in what follows the first `n` characters.
fn read_unpacking(input: &str, chars: &[char], n: usize) -> (r: Result<AptUpgradeEvent, ()>)
    requires
        chars@ == input@,
        n <= chars@.len(),
    ensures
        event_view(r) == unpacking_line(input@.skip(n as int)),
{
    let rest = slice_subrange(chars, n, chars.len());
    proof {
        assert(rest@ =~= input@.skip(n as int));
    }
    let ((a0, b0), (a1, b1), (a3, b3)) = match four_words(rest) {
        Some(words) => words,
        None => {
            return Err(());
        },
    };
    if !bracketed(rest, a1, b1) || !bracketed(rest, a3, b3) {
        return Err(());
    }
    let package = input.substring_char(n + a0, n + b0).to_owned();
    let version = input.substring_char(n + a1 + 1, n + b1 - 1).to_owned();
    let over = input.substring_char(n + a3 + 1, n + b3 - 1).to_owned();
    proof {
        assert(input@.subrange(n + a0, n + b0) =~= rest@.subrange(a0 as int, b0 as int));
        assert(input@.subrange(n + a1 + 1, n + b1 - 1) =~= unbracketed(
            rest@.subrange(a1 as int, b1 as int),
        ));
        assert(input@.subrange(n + a3 + 1, n + b3 - 1) =~= unbracketed(
            rest@.subrange(a3 as int, b3 as int),
        ));
    }
    Ok(AptUpgradeEvent::Unpacking { package, version, over })
}

impl std::str::FromStr for AptUpgradeEvent {
    type Err = ();

    /// Reads one line of the upgrade's output, as [`AptUpgradeEvent::parse`] does.
    fn from_str(input: &str) -> (r: Result<Self, Self::Err>)
        ensures
            event_view(r) == parse_event(input@),
    {
        AptUpgradeEvent::parse(input)
    }
}

/// The keys of the message bus are seven different texts.
proof fn lemma_keys_differ()
    ensures
        "waiting"@ != "processing_package"@,
        "waiting"@ != "percent"@,
        "waiting"@ != "setting_up"@,
        "waiting"@ != "unpacking"@,
        "processing_package"@ != "percent"@,
        "processing_package"@ != "setting_up"@,
        "processing_package"@ != "unpacking"@,
        "percent"@ != "setting_up"@,
        "percent"@ != "unpacking"@,
        "setting_up"@ != "unpacking"@,
        "over"@ != "version"@,
        "over"@ != "unpacking"@,
        "version"@ != "unpacking"@,
{
    reveal_strlit("waiting");
    reveal_strlit("processing_package");
    reveal_strlit("percent");
    reveal_strlit("setting_up");
    reveal_strlit("unpacking");
    reveal_strlit("version");
    reveal_strlit("over");
    assert("waiting"@.len() == 7 && "percent"@.len() == 7 && "version"@.len() == 7);
    assert("processing_package"@.len() == 18);
    assert("setting_up"@.len() == 10);
    assert("unpacking"@.len() == 9);
    assert("over"@.len() == 4);
    assert("waiting"@[0] != "percent"@[0]);
}

/// An event that is written to the message bus and read back is the same event.
pub proof fn lemma_event_survives_dbus(event: UpgradeEventView)
    ensures
        from_dbus(dbus_map(event)) == Some(event),
{
    lemma_keys_differ();
    match event {
        UpgradeEventView::Progress { percent } => {
            text::lemma_decimal_reads_back(percent as nat, u8::MAX as int);
        },
        UpgradeEventView::Unpacking { package, version, over } => {
            let pairs = dbus_map(event);
            let none = UnpackingFields { over: None, version: None, package: None };
            let one = with_field(none, pairs[0].0, pairs[0].1);
            assert(one == Some(UnpackingFields { package: Some(package), ..none }));
            let two = with_field(one->0, pairs[1].0, pairs[1].1);
            assert(two == Some(UnpackingFields { version: Some(version), ..one->0 }));
            let all = with_field(two->0, pairs[2].0, pairs[2].1);
            assert(all == Some(UnpackingFields { over: Some(over), ..two->0 }));
        },
        _ => {},
    }
}

} // verus!
