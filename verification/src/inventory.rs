//! Capability facts of an environment from probes of the local machine.
//!
//! Probes produce values for the keys of environment facts alone. They collect
//! no secrets and contact no network.
use crate::error::{first_refusal, refusal, refuse_unless, Error};
use crate::text::{
    blank, begins_with, chars_of, decimal, decimal_text, join, joined, opt_text, parse_u64, quote, quoted,
    same, split, split_on, strip_prefix, text_of, texts, trimmed_start, unsigned_value, white_space,
};
use crate::text_map::{text_values, TextMap};
use vstd::prelude::*;

verus! {

/// Where facts come from, as it is shown.
pub const INVENTORY_SOURCE: &'static str = "local-probe";

/// A key of an environment fact that a probe produces.
#[derive(Debug, Clone, Copy, PartialEq, Eq, Structural)]
pub enum FactKey {
    Architecture,
    MemoryGib,
    Accelerator,
    FreeDiskGib,
}

impl FactKey {
    /// The name of a key.
    pub open spec fn word(self) -> Seq<char> {
        match self {
            FactKey::Architecture => "architecture"@,
            FactKey::MemoryGib => "memory_gib"@,
            FactKey::Accelerator => "accelerator"@,
            FactKey::FreeDiskGib => "free_disk_gib"@,
        }
    }

    /// The name of a key.
    pub fn as_str(self) -> (name: &'static str)
        ensures
            name@ == self.word(),
    {
        match self {
            FactKey::Architecture => "architecture",
            FactKey::MemoryGib => "memory_gib",
            FactKey::Accelerator => "accelerator",
            FactKey::FreeDiskGib => "free_disk_gib",
        }
    }
}

/// One fact that a probe found.
#[derive(Debug, PartialEq, Eq)]
pub struct InventoryFact {
    pub key: String,
    pub value: String,
    pub source: &'static str,
}

/// What a fact says.
pub struct FactModel {
    pub key: Seq<char>,
    pub value: Seq<char>,
    pub source: Seq<char>,
}

impl View for InventoryFact {
    type V = FactModel;

    open spec fn view(&self) -> FactModel {
        FactModel { key: self.key@, value: self.value@, source: self.source@ }
    }
}

/// What facts say.
pub open spec fn fact_models(list: Seq<InventoryFact>) -> Seq<FactModel> {
    list.map_values(|fact: InventoryFact| fact@)
}

/// A probe of the machine. What it has no reliable reading of, it omits.
pub trait InventoryProbe {
    fn architecture(&self) -> Result<Option<String>, Error>;

    fn memory_gib(&self) -> Result<Option<u64>, Error>;

    fn accelerator(&self) -> Result<Option<String>, Error>;

    fn free_disk_gib(&self) -> Result<Option<u64>, Error>;
}

/// What a probe read.
#[derive(Debug, PartialEq, Eq)]
pub struct Readings {
    pub architecture: Option<String>,
    pub memory_gib: Option<u64>,
    pub accelerator: Option<String>,
    pub free_disk_gib: Option<u64>,
}

impl InventoryProbe for Readings {
    fn architecture(&self) -> (result: Result<Option<String>, Error>)
        ensures
            result is Ok,
            opt_text(result->Ok_0) == opt_text(self.architecture),
    {
        Ok(crate::text::copy_opt(&self.architecture))
    }

    fn memory_gib(&self) -> (result: Result<Option<u64>, Error>)
        ensures
            result == Ok::<Option<u64>, Error>(self.memory_gib),
    {
        Ok(self.memory_gib)
    }

    fn accelerator(&self) -> (result: Result<Option<String>, Error>)
        ensures
            result is Ok,
            opt_text(result->Ok_0) == opt_text(self.accelerator),
    {
        Ok(crate::text::copy_opt(&self.accelerator))
    }

    fn free_disk_gib(&self) -> (result: Result<Option<u64>, Error>)
        ensures
            result == Ok::<Option<u64>, Error>(self.free_disk_gib),
    {
        Ok(self.free_disk_gib)
    }
}

/// Why a reading is refused.
pub open spec fn reading_refusal(key: FactKey, reading: Option<Seq<char>>) -> Option<Seq<char>> {
    refuse_unless(
        reading is None || !blank(reading->0),
        "inventory fact "@ + key.word() + " must not be empty"@,
    )
}

/// The fact of a reading, if there is one.
pub open spec fn reading_facts(key: FactKey, reading: Option<Seq<char>>) -> Seq<FactModel> {
    match reading {
        None => Seq::<FactModel>::empty(),
        Some(value) => seq![
            FactModel { key: key.word(), value, source: INVENTORY_SOURCE@ },
        ],
    }
}

/// A number as a reading.
pub open spec fn number_reading(value: Option<u64>) -> Option<Seq<char>> {
    match value {
        Some(number) => Some(decimal(number as nat)),
        None => None,
    }
}

/// Record a reading among facts.
pub fn record(facts: &mut Vec<InventoryFact>, key: FactKey, reading: Option<String>) -> (result:
    Result<(), Error>)
    ensures
        refusal(result) == reading_refusal(key, opt_text(reading)),
        fact_models(final(facts)@) == (if result is Ok {
            fact_models(old(facts)@) + reading_facts(key, opt_text(reading))
        } else {
            fact_models(old(facts)@)
        }),
{
    match reading {
        None => {
            assert(fact_models(facts@) =~= fact_models(facts@) + Seq::<FactModel>::empty());
            Ok(())
        },
        Some(value) => {
            if value.as_str().trim().unicode_len() == 0 {
                let mut message = "inventory fact ".to_owned();
                message.append(key.as_str());
                message.append(" must not be empty");
                return Err(Error::new(message));
            }
            let ghost before = facts@;
            let ghost model = FactModel {
                key: key.word(),
                value: value@,
                source: INVENTORY_SOURCE@,
            };
            facts.push(
                InventoryFact { key: key.as_str().to_owned(), value, source: INVENTORY_SOURCE },
            );
            assert(fact_models(facts@) =~= fact_models(before).push(model));
            assert(fact_models(facts@) =~= fact_models(before) + seq![model]);
            Ok(())
        },
    }
}

fn number_text(value: Option<u64>) -> (text: Option<String>)
    ensures
        opt_text(text) == number_reading(value),
{
    match value {
        Some(number) => Some(decimal_text(number)),
        None => None,
    }
}

/// Why readings are refused.
pub open spec fn readings_refusal(
    architecture: Option<Seq<char>>,
    memory_gib: Option<u64>,
    accelerator: Option<Seq<char>>,
    free_disk_gib: Option<u64>,
) -> Option<Seq<char>> {
    first_refusal(
        reading_refusal(FactKey::Architecture, architecture),
        first_refusal(
            reading_refusal(FactKey::MemoryGib, number_reading(memory_gib)),
            first_refusal(
                reading_refusal(FactKey::Accelerator, accelerator),
                reading_refusal(FactKey::FreeDiskGib, number_reading(free_disk_gib)),
            ),
        ),
    )
}

/// The facts of readings.
pub open spec fn facts_of(
    architecture: Option<Seq<char>>,
    memory_gib: Option<u64>,
    accelerator: Option<Seq<char>>,
    free_disk_gib: Option<u64>,
) -> Seq<FactModel> {
    reading_facts(FactKey::Architecture, architecture) + reading_facts(
        FactKey::MemoryGib,
        number_reading(memory_gib),
    ) + reading_facts(FactKey::Accelerator, accelerator) + reading_facts(
        FactKey::FreeDiskGib,
        number_reading(free_disk_gib),
    )
}

/// Facts are the facts of some readings that are not refused.
pub open spec fn well_read(facts: Seq<FactModel>) -> bool {
    exists|a: Option<Seq<char>>, m: Option<u64>, c: Option<Seq<char>>, d: Option<u64>|
        facts == #[trigger] facts_of(a, m, c, d) && readings_refusal(a, m, c, d) is None
}

/// The facts of what was read.
pub fn facts_from_readings(readings: Readings) -> (result: Result<Vec<InventoryFact>, Error>)
    ensures
        refusal(result) == readings_refusal(
            opt_text(readings.architecture),
            readings.memory_gib,
            opt_text(readings.accelerator),
            readings.free_disk_gib,
        ),
        result matches Ok(facts) ==> fact_models(facts@) == facts_of(
            opt_text(readings.architecture),
            readings.memory_gib,
            opt_text(readings.accelerator),
            readings.free_disk_gib,
        ),
{
    let mut facts: Vec<InventoryFact> = Vec::new();
    assert(fact_models(facts@) =~= Seq::<FactModel>::empty());
    match record(&mut facts, FactKey::Architecture, readings.architecture) {
        Err(error) => return Err(error),
        Ok(_) => {},
    }
    match record(&mut facts, FactKey::MemoryGib, number_text(readings.memory_gib)) {
        Err(error) => return Err(error),
        Ok(_) => {},
    }
    match record(&mut facts, FactKey::Accelerator, readings.accelerator) {
        Err(error) => return Err(error),
        Ok(_) => {},
    }
    match record(&mut facts, FactKey::FreeDiskGib, number_text(readings.free_disk_gib)) {
        Err(error) => return Err(error),
        Ok(_) => {},
    }
    assert(fact_models(facts@) =~= facts_of(
        opt_text(readings.architecture),
        readings.memory_gib,
        opt_text(readings.accelerator),
        readings.free_disk_gib,
    ));
    Ok(facts)
}

/// What a probe answers when it is asked for each of its readings.
pub struct ProbeAnswers {
    pub architecture: Result<Option<String>, Error>,
    pub memory_gib: Result<Option<u64>, Error>,
    pub accelerator: Result<Option<String>, Error>,
    pub free_disk_gib: Result<Option<u64>, Error>,
}

/// Why an answer with a text is refused: its own error, or that of its reading.
pub open spec fn text_answer_refusal(
    key: FactKey,
    answer: Result<Option<String>, Error>,
) -> Option<Seq<char>> {
    match answer {
        Err(error) => Some(error@),
        Ok(reading) => reading_refusal(key, opt_text(reading)),
    }
}

/// Why an answer with a number is refused: its own error, or that of its
/// reading.
pub open spec fn number_answer_refusal(
    key: FactKey,
    answer: Result<Option<u64>, Error>,
) -> Option<Seq<char>> {
    match answer {
        Err(error) => Some(error@),
        Ok(reading) => reading_refusal(key, number_reading(reading)),
    }
}

impl ProbeAnswers {
    /// Why the answer to the first question is refused.
    pub open spec fn first(self) -> Option<Seq<char>> {
        text_answer_refusal(FactKey::Architecture, self.architecture)
    }

    /// Why the answers to the first two questions are refused.
    pub open spec fn first_two(self) -> Option<Seq<char>> {
        first_refusal(self.first(), number_answer_refusal(FactKey::MemoryGib, self.memory_gib))
    }

    /// Why the answers to the first three questions are refused.
    pub open spec fn first_three(self) -> Option<Seq<char>> {
        first_refusal(
            self.first_two(),
            text_answer_refusal(FactKey::Accelerator, self.accelerator),
        )
    }

    /// Why the answers are refused: the first that is.
    pub open spec fn refused(self) -> Option<Seq<char>> {
        first_refusal(
            self.first_three(),
            number_answer_refusal(FactKey::FreeDiskGib, self.free_disk_gib),
        )
    }

    /// The facts of answers that are not refused.
    pub open spec fn facts(self) -> Seq<FactModel> {
        facts_of(
            opt_text(self.architecture->Ok_0),
            self.memory_gib->Ok_0,
            opt_text(self.accelerator->Ok_0),
            self.free_disk_gib->Ok_0,
        )
    }
}

/// A probe can give these answers. It is asked in the order of the keys, and
/// only until an answer is refused.
pub open spec fn answers<P: InventoryProbe>(probe: P, given: ProbeAnswers) -> bool {
    &&& call_ensures(P::architecture, (&probe,), given.architecture)
    &&& given.first() is None ==> call_ensures(P::memory_gib, (&probe,), given.memory_gib)
    &&& given.first_two() is None ==> call_ensures(P::accelerator, (&probe,), given.accelerator)
    &&& given.first_three() is None ==> call_ensures(
        P::free_disk_gib,
        (&probe,),
        given.free_disk_gib,
    )
}

/// The facts that a probe finds. The probe decides what is read: of what it
/// answers, the first error or blank reading is the refusal, and where there is
/// none, the facts are those of its readings. Whatever it reads, they are of
/// the known keys, in their order, with values that are not blank.
pub fn probe_with<P: InventoryProbe>(probe: P) -> (result: Result<Vec<InventoryFact>, Error>)
    ensures
        exists|given: ProbeAnswers| #[trigger]
            answers(probe, given) && refusal(result) == given.refused() && (result matches Ok(facts)
                ==> fact_models(facts@) == given.facts()),
        result matches Ok(facts) ==> well_read(fact_models(facts@)),
{
    let ghost mut given = ProbeAnswers {
        architecture: Ok(None),
        memory_gib: Ok(None),
        accelerator: Ok(None),
        free_disk_gib: Ok(None),
    };
    let mut facts: Vec<InventoryFact> = Vec::new();
    assert(fact_models(facts@) =~= Seq::<FactModel>::empty());
    let answer = probe.architecture();
    proof {
        given = ProbeAnswers { architecture: answer, ..given };
        assert(given.first() is Some ==> answers(probe, given));
    }
    let architecture = match answer {
        Err(error) => return Err(error),
        Ok(reading) => reading,
    };
    let ghost a = opt_text(architecture);
    match record(&mut facts, FactKey::Architecture, architecture) {
        Err(error) => return Err(error),
        Ok(_) => {},
    }
    let answer = probe.memory_gib();
    proof {
        given = ProbeAnswers { memory_gib: answer, ..given };
        assert(given.first_two() is Some ==> answers(probe, given));
    }
    let memory = match answer {
        Err(error) => return Err(error),
        Ok(reading) => reading,
    };
    match record(&mut facts, FactKey::MemoryGib, number_text(memory)) {
        Err(error) => return Err(error),
        Ok(_) => {},
    }
    let answer = probe.accelerator();
    proof {
        given = ProbeAnswers { accelerator: answer, ..given };
        assert(given.first_three() is Some ==> answers(probe, given));
    }
    let accelerator = match answer {
        Err(error) => return Err(error),
        Ok(reading) => reading,
    };
    let ghost c = opt_text(accelerator);
    match record(&mut facts, FactKey::Accelerator, accelerator) {
        Err(error) => return Err(error),
        Ok(_) => {},
    }
    let answer = probe.free_disk_gib();
    proof {
        given = ProbeAnswers { free_disk_gib: answer, ..given };
        assert(answers(probe, given));
    }
    let disk = match answer {
        Err(error) => return Err(error),
        Ok(reading) => reading,
    };
    match record(&mut facts, FactKey::FreeDiskGib, number_text(disk)) {
        Err(error) => return Err(error),
        Ok(_) => {},
    }
    assert(fact_models(facts@) =~= facts_of(a, memory, c, disk));
    Ok(facts)
}

/// What a host says of itself: its architecture, whether it runs macOS, and
/// what it says of its memory, where it says anything.
#[derive(Debug, PartialEq, Eq)]
pub struct HostReadings {
    pub arch: String,
    pub macos: bool,
    /// The text of the kernel's memory file, on Linux.
    pub meminfo: Option<String>,
    /// The number of bytes of memory, on macOS.
    pub memsize: Option<String>,
}

/// The name of an architecture in facts.
pub open spec fn architecture_fact(arch: Seq<char>) -> Seq<char> {
    if arch == "aarch64"@ {
        "arm64"@
    } else {
        arch
    }
}

/// The name of an architecture in facts.
pub fn normalized_architecture(arch: &str) -> (name: String)
    ensures
        name@ == architecture_fact(arch@),
{
    if same(arch, "aarch64") {
        "arm64".to_owned()
    } else {
        arch.to_owned()
    }
}

/// The accelerator of a host: Apple Silicon has one, of others nothing is
/// claimed.
pub open spec fn accelerator_fact(macos: bool, arch: Seq<char>) -> Option<Seq<char>> {
    if macos && arch == "aarch64"@ {
        Some("apple-metal"@)
    } else {
        None
    }
}

/// The text up to the first white space.
pub open spec fn word_at_start(text: Seq<char>) -> Seq<char>
    decreases text.len(),
{
    if text.len() == 0 || white_space(text[0]) {
        Seq::<char>::empty()
    } else {
        seq![text[0]] + word_at_start(text.drop_first())
    }
}

/// The first word of a text.
pub open spec fn first_word(text: Seq<char>) -> Seq<char> {
    word_at_start(trimmed_start(text))
}

/// Trusted: `char::is_whitespace` tells the characters with the Unicode
/// property `White_Space`.
pub assume_specification[ char::is_whitespace ](c: char) -> (answer: bool)
    ensures
        answer == white_space(c),
;

proof fn lemma_trimmed_start_skip(text: Seq<char>, from: int)
    requires
        0 <= from <= text.len(),
        forall|k: int| 0 <= k < from ==> white_space(#[trigger] text[k]),
        from == text.len() || !white_space(text[from]),
    ensures
        trimmed_start(text) == text.skip(from),
    decreases from,
{
    if from > 0 {
        let rest = text.drop_first();
        assert forall|k: int| 0 <= k < from - 1 implies white_space(#[trigger] rest[k]) by {
            assert(rest[k] == text[k + 1]);
        }
        assert(white_space(text[0]));
        if from < text.len() {
            assert(rest[from - 1] == text[from]);
        }
        lemma_trimmed_start_skip(rest, from - 1);
        assert(rest.skip(from - 1) =~= text.skip(from));
    } else {
        assert(text.skip(0) =~= text);
    }
}

proof fn lemma_word_at_start(text: Seq<char>, to: int)
    requires
        0 <= to <= text.len(),
        forall|k: int| 0 <= k < to ==> !white_space(#[trigger] text[k]),
        to == text.len() || white_space(text[to]),
    ensures
        word_at_start(text) == text.take(to),
    decreases to,
{
    if to > 0 {
        let rest = text.drop_first();
        assert forall|k: int| 0 <= k < to - 1 implies !white_space(#[trigger] rest[k]) by {
            assert(rest[k] == text[k + 1]);
        }
        if to < text.len() {
            assert(rest[to - 1] == text[to]);
        }
        lemma_word_at_start(rest, to - 1);
        assert(text.take(to) =~= seq![text[0]] + rest.take(to - 1));
    } else {
        assert(text.take(0) =~= Seq::<char>::empty());
    }
}

fn first_word_of(text: &str) -> (word: String)
    ensures
        word@ == first_word(text@),
{
    let chars = chars_of(text);
    let mut from: usize = 0;
    while from < chars.len() && chars[from].is_whitespace()
        invariant
            chars@ == text@,
            from <= chars.len(),
            forall|k: int| 0 <= k < from ==> white_space(#[trigger] text@[k]),
        decreases chars.len() - from,
    {
        from = from + 1;
    }
    let ghost rest = text@.skip(from as int);
    let mut word: Vec<char> = Vec::new();
    let mut to: usize = from;
    assert(word@ =~= rest.take(0));
    while to < chars.len() && !chars[to].is_whitespace()
        invariant
            chars@ == text@,
            from <= to <= chars.len(),
            rest == text@.skip(from as int),
            word@ == rest.take(to - from),
            forall|k: int| 0 <= k < to - from ==> !white_space(#[trigger] rest[k]),
        decreases chars.len() - to,
    {
        assert(rest[to - from] == text@[to as int]);
        word.push(chars[to]);
        to = to + 1;
        assert(word@ =~= rest.take(to - from));
    }
    proof {
        lemma_trimmed_start_skip(text@, from as int);
        if to < chars.len() {
            assert(rest[to - from] == text@[to as int]);
        }
        lemma_word_at_start(rest, to - from);
    }
    text_of(&word)
}

/// What a line of the kernel's memory file says of the memory: a text that
/// should be a number of kilobytes.
pub open spec fn line_kib(line: Seq<char>) -> Option<Seq<char>> {
    if begins_with(line, "MemTotal:"@) {
        let word = first_word(line.skip("MemTotal:"@.len() as int));
        Some(
            if word.len() == 0 {
                "0"@
            } else {
                word
            },
        )
    } else {
        None
    }
}

/// What the first line with a total among the first lines says.
pub open spec fn total_kib(lines: Seq<Seq<char>>) -> Option<Seq<char>>
    decreases lines.len(),
{
    if lines.len() == 0 {
        None
    } else if total_kib(lines.drop_last()) is Some {
        total_kib(lines.drop_last())
    } else {
        line_kib(lines.last())
    }
}

proof fn lemma_total_stop(lines: Seq<Seq<char>>, count: int)
    requires
        0 <= count <= lines.len(),
        total_kib(lines.take(count)) is Some,
    ensures
        total_kib(lines) == total_kib(lines.take(count)),
    decreases lines.len(),
{
    if count < lines.len() {
        assert(lines.drop_last().take(count) =~= lines.take(count));
        lemma_total_stop(lines.drop_last(), count);
    } else {
        assert(lines.take(count) =~= lines);
    }
}

/// A number of units as gibibytes, of which there is one at least.
pub open spec fn gib(value: int, units: int) -> int {
    if value / units < 1 {
        1
    } else {
        value / units
    }
}

/// A number that fits 64 bits.
pub open spec fn u64_of(text: Seq<char>) -> Option<int> {
    let value = unsigned_value(text);
    if value is Some && value->0 <= u64::MAX {
        value
    } else {
        None
    }
}

/// What a text says of the memory, in kilobytes.
fn kib_of(line: &str) -> (word: Option<String>)
    ensures
        opt_text(word) == line_kib(line@),
{
    match strip_prefix(line, "MemTotal:") {
        None => None,
        Some(rest) => {
            let word = first_word_of(rest);
            if word.as_str().unicode_len() == 0 {
                Some("0".to_owned())
            } else {
                Some(word)
            }
        },
    }
}

fn total_of(lines: &Vec<String>) -> (word: Option<String>)
    ensures
        opt_text(word) == total_kib(texts(lines@)),
{
    let ghost models = texts(lines@);
    let mut i: usize = 0;
    while i < lines.len()
        invariant
            i <= lines.len(),
            models == texts(lines@),
            total_kib(models.take(i as int)) is None,
        decreases lines.len() - i,
    {
        assert(models.take(i + 1).drop_last() =~= models.take(i as int));
        assert(models.take(i + 1).last() == lines@[i as int]@);
        let word = kib_of(&lines[i]);
        if word.is_some() {
            proof {
                lemma_total_stop(models, i + 1);
            }
            return word;
        }
        i = i + 1;
    }
    assert(models.take(models.len() as int) =~= models);
    None
}

/// The memory of a Linux host in gibibytes, from the text of the kernel's
/// memory file.
pub fn meminfo_gib(content: &str) -> (result: Result<Option<u64>, Error>)
    ensures
        ({
            let total = total_kib(split_on(content@, '\n'));
            &&& refusal(result) == refuse_unless(
                total is None || u64_of(total->0) is Some,
                "parsing MemTotal"@,
            )
            &&& result matches Ok(found) ==> match found {
                Some(value) => total is Some && value == gib(u64_of(total->0)->0, 1_048_576),
                None => total is None,
            }
        }),
{
    let lines = split(content, '\n');
    match total_of(&lines) {
        None => Ok(None),
        Some(word) => match parse_u64(&word) {
            None => Err(Error::fixed("parsing MemTotal")),
            Some(kib) => {
                let whole: u64 = kib / 1_048_576;
                if whole < 1 {
                    Ok(Some(1))
                } else {
                    Ok(Some(whole))
                }
            },
        },
    }
}

/// The memory of a macOS host in gibibytes, from its number of bytes.
pub fn memsize_gib(raw: &str) -> (result: Result<u64, Error>)
    ensures
        refusal(result) == refuse_unless(
            u64_of(crate::text::trimmed(raw@)) is Some,
            "parsing hw.memsize "@ + quoted(crate::text::trimmed(raw@)),
        ),
        result matches Ok(value) ==> value == gib(
            u64_of(crate::text::trimmed(raw@))->0,
            1_073_741_824,
        ),
{
    let inner = raw.trim();
    match parse_u64(inner) {
        None => {
            let mut message = "parsing hw.memsize ".to_owned();
            message.append(quote(inner).as_str());
            Err(Error::new(message))
        },
        Some(bytes) => {
            let whole: u64 = bytes / 1_073_741_824;
            if whole < 1 {
                Ok(1)
            } else {
                Ok(whole)
            }
        },
    }
}

/// What a host reads of its memory, or why it cannot be read.
pub open spec fn memory_fault(host: HostReadings) -> Option<Seq<char>> {
    if host.memsize is Some {
        refuse_unless(
            u64_of(crate::text::trimmed(host.memsize->0@)) is Some,
            "parsing hw.memsize "@ + quoted(crate::text::trimmed(host.memsize->0@)),
        )
    } else if host.meminfo is Some {
        let total = total_kib(split_on(host.meminfo->0@, '\n'));
        refuse_unless(total is None || u64_of(total->0) is Some, "parsing MemTotal"@)
    } else {
        None
    }
}

/// The memory of a host.
pub open spec fn memory_fact(host: HostReadings) -> Option<u64> {
    if host.memsize is Some {
        Some(gib(u64_of(crate::text::trimmed(host.memsize->0@))->0, 1_073_741_824) as u64)
    } else if host.meminfo is Some {
        let total = total_kib(split_on(host.meminfo->0@, '\n'));
        if total is Some {
            Some(gib(u64_of(total->0)->0, 1_048_576) as u64)
        } else {
            None
        }
    } else {
        None
    }
}

fn host_memory(host: &HostReadings) -> (result: Result<Option<u64>, Error>)
    ensures
        refusal(result) == memory_fault(*host),
        result matches Ok(found) ==> found == memory_fact(*host),
{
    match &host.memsize {
        Some(raw) => match memsize_gib(raw) {
            Err(error) => Err(error),
            Ok(value) => Ok(Some(value)),
        },
        None => match &host.meminfo {
            Some(content) => meminfo_gib(content),
            None => Ok(None),
        },
    }
}

/// The facts of the local machine, from what the host says of itself. What
/// there is no reliable reading of is omitted.
pub fn probe_local_inventory(host: &HostReadings) -> (result: Result<Vec<InventoryFact>, Error>)
    ensures
        ({
            let architecture = Some(architecture_fact(host.arch@));
            let accelerator = accelerator_fact(host.macos, host.arch@);
            &&& refusal(result) == first_refusal(
                reading_refusal(FactKey::Architecture, architecture),
                first_refusal(
                    memory_fault(*host),
                    readings_refusal(architecture, memory_fact(*host), accelerator, None),
                ),
            )
            &&& result matches Ok(facts) ==> fact_models(facts@) == facts_of(
                architecture,
                memory_fact(*host),
                accelerator,
                None,
            )
        }),
{
    let architecture = normalized_architecture(&host.arch);
    let mut facts: Vec<InventoryFact> = Vec::new();
    match record(&mut facts, FactKey::Architecture, Some(architecture.clone())) {
        Err(error) => return Err(error),
        Ok(_) => {},
    }
    let memory = match host_memory(host) {
        Err(error) => return Err(error),
        Ok(reading) => reading,
    };
    let accelerator = if host.macos && same(&host.arch, "aarch64") {
        Some("apple-metal".to_owned())
    } else {
        None
    };
    facts_from_readings(
        Readings {
            architecture: Some(architecture),
            memory_gib: memory,
            accelerator,
            free_disk_gib: None,
        },
    )
}

/// The lines of a dry run.
pub open spec fn dry_run_lines(environment: Seq<char>, facts: Seq<FactModel>) -> Seq<Seq<char>> {
    let head = "inventory probe for "@ + environment + " (source="@ + INVENTORY_SOURCE@
        + "; dry-run, not written)"@;
    if facts.len() == 0 {
        seq![head, "  (no facts detected)"@]
    } else {
        seq![head] + facts.map_values(
            |fact: FactModel| "  "@ + fact.key + "="@ + fact.value,
        ) + seq!["re-run with --apply to write via env facts"@]
    }
}

/// Say what a dry run found.
pub fn format_dry_run(env: &str, facts: &Vec<InventoryFact>) -> (text: String)
    ensures
        text@ == joined(dry_run_lines(env@, fact_models(facts@)), "\n"@),
{
    let ghost models = fact_models(facts@);
    let mut head = "inventory probe for ".to_owned();
    head.append(env);
    head.append(" (source=");
    head.append(INVENTORY_SOURCE);
    head.append("; dry-run, not written)");
    let ghost first = head@;
    let mut lines: Vec<String> = Vec::new();
    lines.push(head);
    assert(texts(lines@) =~= seq![first]);
    if facts.len() == 0 {
        let ghost before = lines@;
        lines.push("  (no facts detected)".to_owned());
        assert(texts(lines@) =~= texts(before).push("  (no facts detected)"@));
        assert(texts(lines@) =~= dry_run_lines(env@, models));
    } else {
        let ghost shown = models.map_values(|fact: FactModel| "  "@ + fact.key + "="@ + fact.value);
        let mut i: usize = 0;
        assert(texts(lines@) =~= seq![first] + shown.take(0));
        while i < facts.len()
            invariant
                i <= facts.len(),
                models == fact_models(facts@),
                shown == models.map_values(
                    |fact: FactModel| "  "@ + fact.key + "="@ + fact.value,
                ),
                texts(lines@) == seq![first] + shown.take(i as int),
            decreases facts.len() - i,
        {
            let mut line = "  ".to_owned();
            line.append(facts[i].key.as_str());
            line.append("=");
            line.append(facts[i].value.as_str());
            let ghost before = lines@;
            lines.push(line);
            assert(texts(lines@) =~= texts(before).push(shown[i as int]));
            assert(texts(lines@) =~= seq![first] + shown.take(i + 1));
            i = i + 1;
        }
        let ghost before = lines@;
        lines.push("re-run with --apply to write via env facts".to_owned());
        assert(texts(lines@) =~= texts(before).push(
            "re-run with --apply to write via env facts"@,
        ));
        assert(texts(lines@) =~= dry_run_lines(env@, models));
    }
    join(&lines, "\n")
}

/// The values of facts by their keys, the last of several for one key.
pub open spec fn facts_by_key(facts: Seq<FactModel>) -> Map<Seq<char>, Seq<char>>
    decreases facts.len(),
{
    if facts.len() == 0 {
        Map::<Seq<char>, Seq<char>>::empty()
    } else {
        facts_by_key(facts.drop_last()).insert(facts.last().key, facts.last().value)
    }
}

/// The values of facts by their keys.
pub fn facts_map(facts: &Vec<InventoryFact>) -> (map: TextMap<String>)
    ensures
        text_values(map@) == facts_by_key(fact_models(facts@)),
{
    broadcast use crate::text_map::group_text_values;

    let ghost models = fact_models(facts@);
    let mut map: TextMap<String> = TextMap::new();
    let mut i: usize = 0;
    assert(models.take(0).len() == 0);
    while i < facts.len()
        invariant
            i <= facts.len(),
            models == fact_models(facts@),
            text_values(map@) == facts_by_key(models.take(i as int)),
        decreases facts.len() - i,
    {
        broadcast use crate::text_map::group_text_values;

        assert(models.take(i + 1).drop_last() =~= models.take(i as int));
        assert(models.take(i + 1).last() == facts@[i as int]@);
        map.insert(facts[i].key.clone(), facts[i].value.clone());
        i = i + 1;
    }
    assert(models.take(models.len() as int) =~= models);
    map
}

/// The facts of readings are of the known keys, come from the probe and are
/// not blank.
pub proof fn facts_are_of_known_keys(facts: Seq<FactModel>, at: int)
    requires
        well_read(facts),
        0 <= at < facts.len(),
    ensures
        exists|key: FactKey| facts[at].key == #[trigger] key.word(),
        facts[at].source == INVENTORY_SOURCE@,
        !blank(facts[at].value),
{
    let (a, m, c, d) = choose|
        a: Option<Seq<char>>,
        m: Option<u64>,
        c: Option<Seq<char>>,
        d: Option<u64>,
    |
        facts == #[trigger] facts_of(a, m, c, d) && readings_refusal(a, m, c, d) is None;
    assert(facts == facts_of(a, m, c, d));
    let first = reading_facts(FactKey::Architecture, a);
    let second = reading_facts(FactKey::MemoryGib, number_reading(m));
    let third = reading_facts(FactKey::Accelerator, c);
    let fourth = reading_facts(FactKey::FreeDiskGib, number_reading(d));
    let f1 = first.len() as int;
    let f2 = f1 + second.len();
    let f3 = f2 + third.len();
    if at < f1 {
        assert(facts[at] == first[at]);
        assert(facts[at].key == FactKey::Architecture.word());
    } else if at < f2 {
        assert(facts[at] == second[at - f1]);
        assert(facts[at].key == FactKey::MemoryGib.word());
    } else if at < f3 {
        assert(facts[at] == third[at - f2]);
        assert(facts[at].key == FactKey::Accelerator.word());
    } else {
        assert(facts[at] == fourth[at - f3]);
        assert(facts[at].key == FactKey::FreeDiskGib.word());
    }
}

spec fn totals(line: Seq<char>) -> bool {
    begins_with(line, "MemTotal:"@)
}

proof fn lemma_no_total(lines: Seq<Seq<char>>)
    ensures
        total_kib(lines) is None <==> forall|i: int|
            0 <= i < lines.len() ==> !totals(#[trigger] lines[i]),
    decreases lines.len(),
{
    if lines.len() > 0 {
        let front = lines.drop_last();
        lemma_no_total(front);
        assert forall|i: int| 0 <= i < front.len() implies front[i] == lines[i] by {}
        if total_kib(lines) is None {
            assert forall|i: int| 0 <= i < lines.len() implies !totals(#[trigger] lines[i]) by {
                if i < front.len() {
                    assert(front[i] == lines[i]);
                }
            }
        } else {
            if total_kib(front) is Some {
                let i = choose|i: int| 0 <= i < front.len() && totals(#[trigger] front[i]);
                assert(totals(lines[i]));
            } else {
                assert(totals(lines[lines.len() - 1]));
            }
        }
    }
}

proof fn lemma_first_total(lines: Seq<Seq<char>>, at: int)
    requires
        0 <= at < lines.len(),
        totals(lines[at]),
        forall|i: int| 0 <= i < at ==> !totals(#[trigger] lines[i]),
    ensures
        total_kib(lines) == line_kib(lines[at]),
    decreases lines.len(),
{
    let front = lines.drop_last();
    if at < front.len() {
        assert(front[at] == lines[at]);
        assert forall|i: int| 0 <= i < at implies !totals(#[trigger] front[i]) by {
            assert(front[i] == lines[i]);
        }
        lemma_first_total(front, at);
    } else {
        lemma_no_total(front);
        assert forall|i: int| 0 <= i < front.len() implies !totals(#[trigger] front[i]) by {
            assert(front[i] == lines[i]);
        }
    }
}

/// The memory of a Linux host is what the first line with a total says: its
/// first word is a number of kibibytes, of which a gibibyte has 2^20. Less
/// than one gibibyte counts as one, and a part of one beyond does not count.
pub proof fn first_total_counts(
    content: &str,
    at: int,
    kib: int,
    result: Result<Option<u64>, Error>,
)
    requires
        call_ensures(meminfo_gib, (content,), result),
        0 <= at < split_on(content@, '\n').len(),
        begins_with(split_on(content@, '\n')[at], "MemTotal:"@),
        forall|i: int|
            0 <= i < at ==> !begins_with(#[trigger] split_on(content@, '\n')[i], "MemTotal:"@),
        first_word(split_on(content@, '\n')[at].skip("MemTotal:"@.len() as int)).len() > 0,
        unsigned_value(
            first_word(split_on(content@, '\n')[at].skip("MemTotal:"@.len() as int)),
        ) == Some(kib),
    ensures
        result is Ok <==> kib <= u64::MAX,
        result matches Ok(found) ==> {
            &&& found is Some
            &&& kib < 1_048_576 ==> found->0 == 1
            &&& kib >= 1_048_576 ==> found->0 * 1_048_576 <= kib < (found->0 + 1) * 1_048_576
        },
{
    let lines = split_on(content@, '\n');
    assert forall|i: int| 0 <= i < at implies !totals(#[trigger] lines[i]) by {}
    lemma_first_total(lines, at);
}

/// A memory file without a total says nothing of the memory.
pub proof fn memory_without_a_total_is_unknown(content: &str, result: Result<Option<u64>, Error>)
    requires
        call_ensures(meminfo_gib, (content,), result),
    ensures
        result matches Ok(found) ==> (found is None <==> forall|i: int|
            0 <= i < split_on(content@, '\n').len() ==> !begins_with(
                #[trigger] split_on(content@, '\n')[i],
                "MemTotal:"@,
            )),
        (forall|i: int|
            0 <= i < split_on(content@, '\n').len() ==> !begins_with(
                #[trigger] split_on(content@, '\n')[i],
                "MemTotal:"@,
            )) ==> result is Ok,
{
    let lines = split_on(content@, '\n');
    lemma_no_total(lines);
    if forall|i: int| 0 <= i < lines.len() ==> !begins_with(#[trigger] lines[i], "MemTotal:"@) {
        assert forall|i: int| 0 <= i < lines.len() implies !totals(#[trigger] lines[i]) by {}
    } else {
        let i = choose|i: int|
            0 <= i < lines.len() && begins_with(#[trigger] lines[i], "MemTotal:"@);
        assert(totals(lines[i]));
    }
}

/// The memory of a macOS host is its number of bytes, in gibibytes of 2^30
/// bytes; less than one counts as one.
pub proof fn bytes_of_memory_count(raw: &str, bytes: int, result: Result<u64, Error>)
    requires
        call_ensures(memsize_gib, (raw,), result),
    ensures
        unsigned_value(crate::text::trimmed(raw@)) is None ==> result is Err,
        unsigned_value(crate::text::trimmed(raw@)) == Some(bytes) ==> {
            &&& result is Ok <==> bytes <= u64::MAX
            &&& result matches Ok(value) ==> {
                &&& bytes < 1_073_741_824 ==> value == 1
                &&& bytes >= 1_073_741_824 ==> value * 1_073_741_824 <= bytes < (value + 1)
                    * 1_073_741_824
            }
        },
{
}

/// One architecture has another name in facts; every other keeps its own.
pub proof fn architectures_are_named_once(arch: &str, name: String)
    requires
        call_ensures(normalized_architecture, (arch,), name),
    ensures
        arch@ == "aarch64"@ ==> name@ == "arm64"@,
        arch@ != "aarch64"@ ==> name@ == arch@,
{
}

/// A list of facts holds a value under a key.
pub open spec fn fact_held(
    facts: Seq<InventoryFact>,
    key: Seq<char>,
    value: Option<Seq<char>>,
) -> bool {
    match value {
        Some(text) => exists|i: int|
            0 <= i < facts.len() && (#[trigger] facts[i]).key@ == key && facts[i].value@ == text
                && facts[i].source@ == "local-probe"@,
        None => forall|i: int| 0 <= i < facts.len() ==> (#[trigger] facts[i]).key@ != key,
    }
}

proof fn lemma_keys_apart()
    ensures
        "architecture"@ != "memory_gib"@,
        "architecture"@ != "accelerator"@,
        "architecture"@ != "free_disk_gib"@,
        "memory_gib"@ != "accelerator"@,
        "memory_gib"@ != "free_disk_gib"@,
        "accelerator"@ != "free_disk_gib"@,
{
    reveal_strlit("architecture");
    reveal_strlit("memory_gib");
    reveal_strlit("accelerator");
    reveal_strlit("free_disk_gib");
    assert("architecture"@.len() == 12);
    assert("memory_gib"@.len() == 10);
    assert("accelerator"@.len() == 11);
    assert("free_disk_gib"@.len() == 13);
}

proof fn lemma_facts_held(
    facts: Seq<InventoryFact>,
    a: Option<Seq<char>>,
    m: Option<u64>,
    c: Option<Seq<char>>,
    d: Option<u64>,
)
    requires
        fact_models(facts) == facts_of(a, m, c, d),
    ensures
        fact_held(facts, "architecture"@, a),
        fact_held(facts, "memory_gib"@, number_reading(m)),
        fact_held(facts, "accelerator"@, c),
        fact_held(facts, "free_disk_gib"@, number_reading(d)),
{
    lemma_keys_apart();
    let models = fact_models(facts);
    assert forall|i: int| 0 <= i < facts.len() implies (#[trigger] facts[i])@ == models[i] by {}
    let f1 = if a is Some { 1int } else { 0 };
    let f2 = f1 + if m is Some { 1int } else { 0 };
    let f3 = f2 + if c is Some { 1int } else { 0 };
    let f4 = f3 + if d is Some { 1int } else { 0 };
    assert(models.len() == f4);
    if a is Some {
        assert(facts[0]@ == models[0]);
        assert(facts[0].key@ == "architecture"@);
    }
    if m is Some {
        assert(facts[f1]@ == models[f1]);
        assert(facts[f1].key@ == "memory_gib"@);
    }
    if c is Some {
        assert(facts[f2]@ == models[f2]);
        assert(facts[f2].key@ == "accelerator"@);
    }
    if d is Some {
        assert(facts[f3]@ == models[f3]);
        assert(facts[f3].key@ == "free_disk_gib"@);
    }
}

/// Every reading becomes one fact under its key, what was not read becomes
/// none, and the facts are refused for a blank text alone.
pub proof fn readings_become_facts(readings: Readings, result: Result<Vec<InventoryFact>, Error>)
    requires
        call_ensures(facts_from_readings, (readings,), result),
    ensures
        (readings.architecture matches Some(text) ==> !blank(text@)) && (
        readings.accelerator matches Some(text) ==> !blank(text@)) ==> result is Ok,
        readings.architecture is Some && blank(readings.architecture->0@) ==> result is Err,
        readings.accelerator is Some && blank(readings.accelerator->0@) ==> result is Err,
        result matches Ok(facts) ==> {
            &&& fact_held(facts@, "architecture"@, opt_text(readings.architecture))
            &&& fact_held(facts@, "accelerator"@, opt_text(readings.accelerator))
            &&& readings.memory_gib is None ==> fact_held(facts@, "memory_gib"@, None)
            &&& readings.memory_gib matches Some(n) ==> fact_held(
                facts@,
                "memory_gib"@,
                Some(decimal(n as nat)),
            )
            &&& readings.free_disk_gib is None ==> fact_held(facts@, "free_disk_gib"@, None)
            &&& readings.free_disk_gib matches Some(n) ==> fact_held(
                facts@,
                "free_disk_gib"@,
                Some(decimal(n as nat)),
            )
        },
{
    if readings.memory_gib is Some {
        lemma_number_is_not_blank(readings.memory_gib->0 as nat);
    }
    if readings.free_disk_gib is Some {
        lemma_number_is_not_blank(readings.free_disk_gib->0 as nat);
    }
    if result is Ok {
        lemma_facts_held(
            result->Ok_0@,
            opt_text(readings.architecture),
            readings.memory_gib,
            opt_text(readings.accelerator),
            readings.free_disk_gib,
        );
    }
}

proof fn lemma_number_is_not_blank(value: nat)
    ensures
        !blank(decimal(value)),
{
    crate::text::lemma_decimal_reads_back(value);
    lemma_digit_first(value);
}

proof fn lemma_digit_first(value: nat)
    ensures
        decimal(value).len() > 0,
        !white_space(decimal(value).last()),
{
}

/// A probe whose readings are at hand finds the facts of those readings.
pub proof fn probing_readings_gives_their_facts(
    readings: Readings,
    probed: Result<Vec<InventoryFact>, Error>,
    made: Result<Vec<InventoryFact>, Error>,
)
    requires
        call_ensures(probe_with::<Readings>, (readings,), probed),
        call_ensures(facts_from_readings, (readings,), made),
    ensures
        refusal(probed) == refusal(made),
        probed is Ok ==> fact_models(probed->Ok_0@) == fact_models(made->Ok_0@),
{
    let given = choose|given: ProbeAnswers| #[trigger]
        answers(readings, given) && refusal(probed) == given.refused() && (probed matches Ok(facts)
            ==> fact_models(facts@) == given.facts());
    assert(answers(readings, given));
}

/// The facts of a host: its architecture always, its accelerator on Apple
/// Silicon alone, its memory where it says what it is, and never its disk.
pub proof fn host_facts(host: &HostReadings, result: Result<Vec<InventoryFact>, Error>)
    requires
        call_ensures(probe_local_inventory, (host,), result),
    ensures
        blank(host.arch@) && host.arch@ != "aarch64"@ ==> result is Err,
        result matches Ok(facts) ==> {
            &&& host.arch@ == "aarch64"@ ==> fact_held(facts@, "architecture"@, Some("arm64"@))
            &&& host.arch@ != "aarch64"@ ==> fact_held(
                facts@,
                "architecture"@,
                Some(host.arch@),
            )
            &&& host.macos && host.arch@ == "aarch64"@ ==> fact_held(
                facts@,
                "accelerator"@,
                Some("apple-metal"@),
            )
            &&& !(host.macos && host.arch@ == "aarch64"@) ==> fact_held(
                facts@,
                "accelerator"@,
                None,
            )
            &&& host.memsize is None && host.meminfo is None ==> fact_held(
                facts@,
                "memory_gib"@,
                None,
            )
            &&& fact_held(facts@, "free_disk_gib"@, None)
        },
{
    if result is Ok {
        lemma_facts_held(
            result->Ok_0@,
            Some(architecture_fact(host.arch@)),
            memory_fact(*host),
            accelerator_fact(host.macos, host.arch@),
            None,
        );
    }
}

/// The memory fact of a host is what its memory is read as: the number of
/// bytes before the memory file, where it says both.
pub proof fn host_memory_is_a_fact(
    host: &HostReadings,
    text: &str,
    size: Result<u64, Error>,
    info: Result<Option<u64>, Error>,
    result: Result<Vec<InventoryFact>, Error>,
)
    requires
        call_ensures(probe_local_inventory, (host,), result),
        call_ensures(memsize_gib, (text,), size),
        call_ensures(meminfo_gib, (text,), info),
    ensures
        host.memsize matches Some(raw) ==> raw@ == text@ ==> {
            &&& size is Err ==> result is Err
            &&& result is Ok ==> fact_held(
                result->Ok_0@,
                "memory_gib"@,
                Some(decimal(size->Ok_0 as nat)),
            )
        },
        host.memsize is None && host.meminfo is Some && host.meminfo->0@ == text@ ==> {
            &&& info is Err ==> result is Err
            &&& result is Ok && info->Ok_0 is Some ==> fact_held(
                result->Ok_0@,
                "memory_gib"@,
                Some(decimal(info->Ok_0->0 as nat)),
            )
            &&& result is Ok && info->Ok_0 is None ==> fact_held(
                result->Ok_0@,
                "memory_gib"@,
                None,
            )
        },
{
    if result is Ok {
        lemma_facts_held(
            result->Ok_0@,
            Some(architecture_fact(host.arch@)),
            memory_fact(*host),
            accelerator_fact(host.macos, host.arch@),
            None,
        );
    }
}

proof fn lemma_last_fact(facts: Seq<FactModel>, at: int)
    requires
        0 <= at < facts.len(),
        forall|i: int| at < i < facts.len() ==> (#[trigger] facts[i]).key != facts[at].key,
    ensures
        facts_by_key(facts).contains_key(facts[at].key),
        facts_by_key(facts)[facts[at].key] == facts[at].value,
    decreases facts.len(),
{
    let front = facts.drop_last();
    if at < front.len() {
        assert forall|i: int| at < i < front.len() implies (#[trigger] front[i]).key
            != front[at].key by {
            assert(front[i] == facts[i]);
        }
        lemma_last_fact(front, at);
        assert(facts[facts.len() - 1].key != facts[at].key);
    }
}

proof fn lemma_known_key(facts: Seq<FactModel>, key: Seq<char>)
    requires
        facts_by_key(facts).contains_key(key),
    ensures
        exists|i: int| 0 <= i < facts.len() && (#[trigger] facts[i]).key == key,
    decreases facts.len(),
{
    if facts.len() > 0 {
        let front = facts.drop_last();
        if facts.last().key == key {
            assert(facts[facts.len() - 1].key == key);
        } else {
            lemma_known_key(front, key);
            let i = choose|i: int| 0 <= i < front.len() && (#[trigger] front[i]).key == key;
            assert(facts[i].key == key);
        }
    }
}

/// A map of facts has the keys of the facts and, of several values for one
/// key, the last.
pub proof fn last_fact_of_a_key_counts(facts: &Vec<InventoryFact>, at: int, map: TextMap<String>)
    requires
        call_ensures(facts_map, (facts,), map),
        0 <= at < facts@.len(),
        forall|i: int| at < i < facts@.len() ==> (#[trigger] facts@[i]).key@ != facts@[at].key@,
    ensures
        text_values(map@).contains_key(facts@[at].key@),
        text_values(map@)[facts@[at].key@] == facts@[at].value@,
{
    let models = fact_models(facts@);
    assert forall|i: int| at < i < models.len() implies (#[trigger] models[i]).key
        != models[at].key by {
        assert(models[i] == facts@[i]@);
    }
    assert(models[at] == facts@[at]@);
    lemma_last_fact(models, at);
}

/// A map of facts has no keys but those of the facts.
pub proof fn mapped_keys_are_of_facts(facts: &Vec<InventoryFact>, key: Seq<char>, map: TextMap<
    String,
>)
    requires
        call_ensures(facts_map, (facts,), map),
        text_values(map@).contains_key(key),
    ensures
        exists|i: int| 0 <= i < facts@.len() && (#[trigger] facts@[i]).key@ == key,
{
    let models = fact_models(facts@);
    lemma_known_key(models, key);
    let i = choose|i: int| 0 <= i < models.len() && (#[trigger] models[i]).key == key;
    assert(models[i] == facts@[i]@);
    assert(facts@[i].key@ == key);
}

/// A recorded reading stands behind the facts before it; a blank one is
/// refused, and one that is not there changes nothing.
pub proof fn recorded_reading_is_the_last_fact(
    facts: &mut Vec<InventoryFact>,
    key: FactKey,
    reading: Option<String>,
    result: Result<(), Error>,
)
    requires
        call_ensures(record, (facts, key, reading), result),
    ensures
        reading is None ==> result is Ok && fact_models(final(facts)@) == fact_models(
            old(facts)@,
        ),
        reading matches Some(text) ==> {
            &&& result is Err <==> blank(text@)
            &&& blank(text@) ==> fact_models(final(facts)@) == fact_models(old(facts)@)
            &&& !blank(text@) ==> {
                &&& final(facts)@.len() == old(facts)@.len() + 1
                &&& final(facts)@.last()@.value == text@
                &&& final(facts)@.last()@.source == "local-probe"@
                &&& key is Architecture ==> final(facts)@.last()@.key == "architecture"@
                &&& key is MemoryGib ==> final(facts)@.last()@.key == "memory_gib"@
                &&& key is Accelerator ==> final(facts)@.last()@.key == "accelerator"@
                &&& key is FreeDiskGib ==> final(facts)@.last()@.key == "free_disk_gib"@
                &&& fact_models(final(facts)@).drop_last() == fact_models(old(facts)@)
            }
        },
{
    let before = fact_models(old(facts)@);
    let after = fact_models(final(facts)@);
    if reading is None {
        assert(before + Seq::<FactModel>::empty() =~= before);
    } else if !blank(reading->0@) {
        let new = reading_facts(key, opt_text(reading));
        assert(new.len() == 1);
        assert(after == before + new);
        assert(after.len() == before.len() + 1);
        assert(after[after.len() - 1] == new[0]);
        assert(final(facts)@[final(facts)@.len() - 1]@ == after[after.len() - 1]);
        assert(after.drop_last() =~= before);
    }
}

} // verus!
