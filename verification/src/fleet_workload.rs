//! A deterministic synthetic fleet of a thousand environments.
//!
//! It is evidence infrastructure, no support claim: the same seed gives the
//! same fleet.
use crate::crypto::{digest_of, is_digest, is_lower_hex, prefixed_digest};
use crate::environment::StoredEnvironment;
use crate::error::{first_refusal, refusal, refuse_unless, Error};
use crate::framing::utf8;
use crate::ontology::{identifier, identifier_refusal, validate_identifier};
use crate::text::{
    ascii_lower, chars_of, contains, contains_text, control, decimal, decimal_text, digits_value,
    lemma_decimal_reads_back, quote, quoted, same, trimmed, zero_pad, zero_padded,
};
use crate::text_map::{text_at, TextMap};
use vstd::prelude::*;

verus! {

/// How many environments the fleet has.
pub const WORKLOAD_SIZE: u32 = 1_000;

/// The words for postures.
pub const POSTURE_CURRENT: &'static str = "current";

pub const POSTURE_BEHIND: &'static str = "behind";

pub const POSTURE_UNHEALTHY: &'static str = "unhealthy";

pub const POSTURE_BLOCKED: &'static str = "blocked";

pub const POSTURE_DISCONNECTED: &'static str = "disconnected";

/// The property that holds the posture of an environment.
pub const PROPERTY_POSTURE: &'static str = "synthetic_workload.posture";

/// The property that holds the digest of the seed.
pub const PROPERTY_SEED: &'static str = "synthetic_workload.seed_digest";

/// How a synthetic environment stands.
#[derive(Debug, Clone, Copy, PartialEq, Eq, PartialOrd, Ord, Structural)]
pub enum WorkloadPosture {
    Current,
    Behind,
    Unhealthy,
    Blocked,
    Disconnected,
}

impl WorkloadPosture {
    /// The word for a posture.
    pub open spec fn word(self) -> Seq<char> {
        match self {
            WorkloadPosture::Current => "current"@,
            WorkloadPosture::Behind => "behind"@,
            WorkloadPosture::Unhealthy => "unhealthy"@,
            WorkloadPosture::Blocked => "blocked"@,
            WorkloadPosture::Disconnected => "disconnected"@,
        }
    }

    /// The posture of a word.
    pub fn parse(value: &str) -> (result: Result<WorkloadPosture, Error>)
        ensures
            refusal(result) == posture_refusal(value@),
            result matches Ok(posture) ==> posture_named(value@) == Some(posture),
    {
        if same(value, POSTURE_CURRENT) {
            Ok(WorkloadPosture::Current)
        } else if same(value, POSTURE_BEHIND) {
            Ok(WorkloadPosture::Behind)
        } else if same(value, POSTURE_UNHEALTHY) {
            Ok(WorkloadPosture::Unhealthy)
        } else if same(value, POSTURE_BLOCKED) {
            Ok(WorkloadPosture::Blocked)
        } else if same(value, POSTURE_DISCONNECTED) {
            Ok(WorkloadPosture::Disconnected)
        } else {
            let mut message = "unknown workload posture ".to_owned();
            message.append(quote(value).as_str());
            Err(Error::new(message))
        }
    }

    /// The word for a posture.
    pub fn as_str(self) -> (word: &'static str)
        ensures
            word@ == self.word(),
    {
        match self {
            WorkloadPosture::Current => POSTURE_CURRENT,
            WorkloadPosture::Behind => POSTURE_BEHIND,
            WorkloadPosture::Unhealthy => POSTURE_UNHEALTHY,
            WorkloadPosture::Blocked => POSTURE_BLOCKED,
            WorkloadPosture::Disconnected => POSTURE_DISCONNECTED,
        }
    }
}

/// The posture of a word.
pub open spec fn posture_named(value: Seq<char>) -> Option<WorkloadPosture> {
    if value == "current"@ {
        Some(WorkloadPosture::Current)
    } else if value == "behind"@ {
        Some(WorkloadPosture::Behind)
    } else if value == "unhealthy"@ {
        Some(WorkloadPosture::Unhealthy)
    } else if value == "blocked"@ {
        Some(WorkloadPosture::Blocked)
    } else if value == "disconnected"@ {
        Some(WorkloadPosture::Disconnected)
    } else {
        None
    }
}

/// Why a word is no posture.
pub open spec fn posture_refusal(value: Seq<char>) -> Option<Seq<char>> {
    refuse_unless(posture_named(value) is Some, "unknown workload posture "@ + quoted(value))
}

proof fn lemma_posture_words()
    ensures
        "current"@.len() == 7,
        "behind"@.len() == 6,
        "unhealthy"@.len() == 9,
        "blocked"@.len() == 7,
        "disconnected"@.len() == 12,
        "current"@ != "blocked"@,
{
    reveal_strlit("current");
    reveal_strlit("behind");
    reveal_strlit("unhealthy");
    reveal_strlit("blocked");
    reveal_strlit("disconnected");
    assert("current"@[0] != "blocked"@[0]);
}

/// A posture is found under its own word, and under no other.
pub proof fn words_are_the_postures(posture: WorkloadPosture, value: Seq<char>)
    ensures
        posture_named(value) == Some(posture) <==> value == posture.word(),
{
    lemma_posture_words();
}

/// What a synthetic fleet is made from.
#[derive(Debug, PartialEq, Eq)]
pub struct WorkloadSpec {
    pub seed: String,
    pub product: String,
    pub channel: String,
    pub current_version: String,
    pub behind_version: String,
}

/// One environment of a synthetic fleet.
#[derive(Debug, PartialEq, Eq)]
pub struct WorkloadMember {
    pub name: String,
    pub posture: WorkloadPosture,
}

/// What an environment of a fleet is.
pub struct MemberModel {
    pub name: Seq<char>,
    pub posture: WorkloadPosture,
}

impl View for WorkloadMember {
    type V = MemberModel;

    open spec fn view(&self) -> MemberModel {
        MemberModel { name: self.name@, posture: self.posture }
    }
}

/// What the environments of a fleet are.
pub open spec fn member_models(list: Seq<WorkloadMember>) -> Seq<MemberModel> {
    list.map_values(|member: WorkloadMember| member@)
}

/// A synthetic fleet.
#[derive(Debug, PartialEq, Eq)]
pub struct WorkloadPlan {
    pub seed_digest: String,
    pub product: String,
    pub channel: String,
    pub current_version: String,
    pub behind_version: String,
    pub members: Vec<WorkloadMember>,
}

/// A text in lower case holds what credentials are passed with.
pub open spec fn credential_like(lower: Seq<char>) -> bool {
    contains_text(lower, "bearer "@) || contains_text(lower, "password="@) || contains_text(
        lower,
        "secret="@,
    ) || contains_text(lower, "token="@)
}

/// A control character stands in a text.
pub open spec fn has_control(text: Seq<char>) -> bool {
    exists|i: int| 0 <= i < text.len() && control(#[trigger] text[i])
}

/// Why a seed is refused.
pub open spec fn seed_refusal(seed: Seq<char>) -> Option<Seq<char>> {
    if seed.len() == 0 || trimmed(seed) != seed || utf8(seed).len() > 128 {
        Some("workload seed is empty, non-canonical, or too long"@)
    } else if has_control(seed) {
        Some("workload seed must not contain control characters"@)
    } else if credential_like(seed.map_values(|c: char| ascii_lower(c))) {
        Some("workload seed must not contain credential material"@)
    } else {
        None
    }
}

fn controlled(text: &str) -> (answer: bool)
    ensures
        answer == has_control(text@),
{
    let chars = chars_of(text);
    let mut i: usize = 0;
    while i < chars.len()
        invariant
            i <= chars.len(),
            chars@ == text@,
            forall|k: int| 0 <= k < i ==> !control(#[trigger] text@[k]),
        decreases chars.len() - i,
    {
        if chars[i].is_control() {
            assert(control(text@[i as int]));
            return true;
        }
        i = i + 1;
    }
    false
}

fn validate_seed(seed: &str) -> (result: Result<(), Error>)
    ensures
        refusal(result) == seed_refusal(seed@),
{
    if seed.unicode_len() == 0 || !same(seed, seed.trim()) || seed.as_bytes().len() > 128 {
        return Err(Error::fixed("workload seed is empty, non-canonical, or too long"));
    }
    if controlled(seed) {
        return Err(Error::fixed("workload seed must not contain control characters"));
    }
    let lower = seed.to_ascii_lowercase();
    if contains(&lower, "bearer ") || contains(&lower, "password=") || contains(&lower, "secret=")
        || contains(&lower, "token=") {
        return Err(Error::fixed("workload seed must not contain credential material"));
    }
    Ok(())
}

/// The digest of a seed.
pub fn seed_digest(seed: &str) -> (result: Result<String, Error>)
    ensures
        refusal(result) == seed_refusal(seed@),
        result matches Ok(digest) ==> digest@ == prefixed_digest(utf8(seed@)) && is_digest(
            digest@,
        ),
{
    match validate_seed(seed) {
        Err(error) => Err(error),
        Ok(_) => Ok(digest_of(seed.as_bytes())),
    }
}

/// Why a fleet cannot be made.
pub open spec fn spec_refusal(spec: WorkloadSpec) -> Option<Seq<char>> {
    first_refusal(
        seed_refusal(spec.seed@),
        first_refusal(
            identifier_refusal("product"@, spec.product@),
            first_refusal(
                identifier_refusal("channel"@, spec.channel@),
                first_refusal(
                    identifier_refusal("current version"@, spec.current_version@),
                    first_refusal(
                        identifier_refusal("behind version"@, spec.behind_version@),
                        refuse_unless(
                            spec.current_version@ != spec.behind_version@,
                            "current and behind versions must differ"@,
                        ),
                    ),
                ),
            ),
        ),
    )
}

impl WorkloadSpec {
    /// Check what a fleet is made from.
    pub fn validate(&self) -> (result: Result<(), Error>)
        ensures
            refusal(result) == spec_refusal(*self),
    {
        match validate_seed(&self.seed) {
            Err(error) => return Err(error),
            Ok(_) => {},
        }
        match validate_identifier("product", &self.product) {
            Err(error) => return Err(error),
            Ok(_) => {},
        }
        match validate_identifier("channel", &self.channel) {
            Err(error) => return Err(error),
            Ok(_) => {},
        }
        match validate_identifier("current version", &self.current_version) {
            Err(error) => return Err(error),
            Ok(_) => {},
        }
        match validate_identifier("behind version", &self.behind_version) {
            Err(error) => return Err(error),
            Ok(_) => {},
        }
        if same(&self.current_version, &self.behind_version) {
            return Err(Error::fixed("current and behind versions must differ"));
        }
        Ok(())
    }
}

/// The posture of an environment by its place: the postures take turns.
pub open spec fn posture_at(index: int) -> WorkloadPosture {
    if index % 5 == 0 {
        WorkloadPosture::Current
    } else if index % 5 == 1 {
        WorkloadPosture::Behind
    } else if index % 5 == 2 {
        WorkloadPosture::Unhealthy
    } else if index % 5 == 3 {
        WorkloadPosture::Blocked
    } else {
        WorkloadPosture::Disconnected
    }
}

/// The name of an environment by the digest of the seed and its place.
pub open spec fn member_name(digest: Seq<char>, index: int) -> Seq<char> {
    "syn"@ + digest.subrange(7, 15) + zero_padded(index as nat, 4)
}

/// The environments of the fleet of a seed.
pub open spec fn fleet_members(digest: Seq<char>) -> Seq<MemberModel> {
    Seq::new(
        WORKLOAD_SIZE as nat,
        |index: int|
            MemberModel { name: member_name(digest, index), posture: posture_at(index) },
    )
}

/// One of the first environments has a name.
pub open spec fn named_before(list: Seq<MemberModel>, count: int, name: Seq<char>) -> bool {
    exists|k: int| 0 <= k < count && (#[trigger] list[k]).name == name
}

/// The place of the first environment whose name occurs before it.
pub open spec fn first_duplicate(list: Seq<MemberModel>, count: nat) -> Option<int>
    decreases count,
{
    if count == 0 {
        None
    } else {
        let before = first_duplicate(list, (count - 1) as nat);
        if before is Some {
            before
        } else if named_before(list, count - 1, list[count - 1].name) {
            Some(count - 1)
        } else {
            None
        }
    }
}

/// All environments stand the same.
pub open spec fn uniform(list: Seq<MemberModel>) -> bool {
    forall|i: int, j: int|
        0 <= i < list.len() && 0 <= j < list.len() ==> (#[trigger] list[i]).posture == (
        #[trigger] list[j]).posture
}

/// Why a list of environments is no fleet.
pub open spec fn members_refusal(list: Seq<MemberModel>) -> Option<Seq<char>> {
    let duplicate = first_duplicate(list, list.len());
    if duplicate is Some {
        Some("duplicate environment identity "@ + list[duplicate->0].name)
    } else if list.len() % 0x1_0000_0000 != WORKLOAD_SIZE {
        Some(
            "workload must contain "@ + decimal(WORKLOAD_SIZE as nat) + " environments, got "@
                + decimal(list.len()),
        )
    } else {
        refuse_unless(
            !uniform(list),
            "mixed postures were requested; refusing an all-healthy fleet"@,
        )
    }
}

proof fn lemma_duplicate_stop(list: Seq<MemberModel>, count: nat, total: nat)
    requires
        count <= total,
        first_duplicate(list, count) is Some,
    ensures
        first_duplicate(list, total) == first_duplicate(list, count),
    decreases total,
{
    if count < total {
        lemma_duplicate_stop(list, count, (total - 1) as nat);
    }
}

fn taken(members: &Vec<WorkloadMember>, count: usize, name: &str) -> (answer: bool)
    requires
        count <= members@.len(),
    ensures
        answer == named_before(member_models(members@), count as int, name@),
{
    let ghost models = member_models(members@);
    let mut k: usize = 0;
    while k < count
        invariant
            k <= count,
            count <= members@.len(),
            models == member_models(members@),
            forall|m: int| 0 <= m < k ==> (#[trigger] models[m]).name != name@,
        decreases count - k,
    {
        assert(models[k as int].name == members@[k as int].name@);
        if same(&members[k].name, name) {
            return true;
        }
        k = k + 1;
    }
    false
}

fn all_alike(members: &Vec<WorkloadMember>) -> (answer: bool)
    ensures
        answer == uniform(member_models(members@)),
{
    let ghost models = member_models(members@);
    let mut k: usize = 0;
    while k < members.len()
        invariant
            k <= members@.len(),
            models == member_models(members@),
            forall|m: int| 0 <= m < k ==> (#[trigger] models[m]).posture == models[0].posture,
        decreases members.len() - k,
    {
        assert(models[k as int].posture == members@[k as int].posture);
        assert(models[0].posture == members@[0].posture);
        if members[k].posture != members[0].posture {
            assert(models[k as int].posture != models[0].posture);
            return false;
        }
        k = k + 1;
    }
    true
}

/// Check that a list of environments is a fleet: distinct names, the size, and
/// more than one posture.
pub fn validate_members(members: &Vec<WorkloadMember>) -> (result: Result<(), Error>)
    ensures
        refusal(result) == members_refusal(member_models(members@)),
{
    let ghost models = member_models(members@);
    let mut i: usize = 0;
    while i < members.len()
        invariant
            i <= members.len(),
            models == member_models(members@),
            first_duplicate(models, i as nat) is None,
        decreases members.len() - i,
    {
        assert(models[i as int].name == members@[i as int].name@);
        if taken(members, i, &members[i].name) {
            proof {
                assert(first_duplicate(models, (i + 1) as nat) == Some(i as int));
                lemma_duplicate_stop(models, (i + 1) as nat, models.len());
            }
            let mut message = "duplicate environment identity ".to_owned();
            message.append(members[i].name.as_str());
            return Err(Error::new(message));
        }
        assert(first_duplicate(models, (i + 1) as nat) is None);
        i = i + 1;
    }
    let size: u64 = (members.len() as u64) % 0x1_0000_0000;
    if size != WORKLOAD_SIZE as u64 {
        let mut message = "workload must contain ".to_owned();
        message.append(decimal_text(WORKLOAD_SIZE as u64).as_str());
        message.append(" environments, got ");
        message.append(decimal_text(members.len() as u64).as_str());
        return Err(Error::new(message));
    }
    if all_alike(members) {
        return Err(
            Error::fixed("mixed postures were requested; refusing an all-healthy fleet"),
        );
    }
    Ok(())
}

proof fn lemma_zero_padded_reads(value: nat, width: nat)
    ensures
        digits_value(zero_padded(value, width)) == Some(value),
        forall|i: int|
            0 <= i < zero_padded(value, width).len() ==> '0' <= #[trigger] zero_padded(
                value,
                width,
            )[i] <= '9',
{
    lemma_decimal_reads_back(value);
    let plain = decimal(value);
    lemma_decimal_digits(value);
    if plain.len() < width {
        lemma_zeros_in_front(plain, (width - plain.len()) as nat);
    }
}

proof fn lemma_decimal_digits(value: nat)
    ensures
        forall|i: int| 0 <= i < decimal(value).len() ==> '0' <= #[trigger] decimal(value)[i] <= '9',
    decreases value,
{
    if value >= 10 {
        lemma_decimal_digits(value / 10);
        let front = decimal(value / 10);
        let text = decimal(value);
        assert forall|i: int| 0 <= i < text.len() implies '0' <= #[trigger] text[i] <= '9' by {
            if i < front.len() {
                assert(text[i] == front[i]);
            }
        }
    }
}

proof fn lemma_zeros_in_front(plain: Seq<char>, zeros: nat)
    requires
        plain.len() > 0,
    ensures
        digits_value(Seq::new(zeros, |i: int| '0') + plain) == digits_value(plain),
    decreases plain.len(),
{
    let front = Seq::new(zeros, |i: int| '0');
    let text = front + plain;
    assert(text.drop_last() =~= front + plain.drop_last());
    assert(text.last() == plain.last());
    if plain.len() > 1 {
        lemma_zeros_in_front(plain.drop_last(), zeros);
    } else {
        assert(plain.drop_last() =~= Seq::<char>::empty());
        assert(front + plain.drop_last() =~= front);
        lemma_only_zeros(zeros);
    }
}

proof fn lemma_only_zeros(zeros: nat)
    ensures
        zeros == 0 ==> Seq::new(zeros, |i: int| '0') == Seq::<char>::empty(),
        zeros > 0 ==> digits_value(Seq::new(zeros, |i: int| '0')) == Some(0nat),
    decreases zeros,
{
    let text = Seq::new(zeros, |i: int| '0');
    if zeros == 0 {
        assert(text =~= Seq::<char>::empty());
    } else {
        assert(text.drop_last() =~= Seq::new((zeros - 1) as nat, |i: int| '0'));
        lemma_only_zeros((zeros - 1) as nat);
    }
}

/// The environments of a fleet have names of their own, which identify them.
pub proof fn members_are_distinct(digest: Seq<char>, i: int, j: int)
    requires
        0 <= i < j < WORKLOAD_SIZE,
    ensures
        member_name(digest, i) != member_name(digest, j),
{
    lemma_zero_padded_reads(i as nat, 4);
    lemma_zero_padded_reads(j as nat, 4);
    let head = "syn"@ + digest.subrange(7, 15);
    let a = zero_padded(i as nat, 4);
    let b = zero_padded(j as nat, 4);
    if member_name(digest, i) == member_name(digest, j) {
        assert((head + a).skip(head.len() as int) =~= a);
        assert((head + b).skip(head.len() as int) =~= b);
    }
}

proof fn lemma_member_identifier(digest: Seq<char>, index: int)
    requires
        digest.len() == 71,
        forall|i: int| 7 <= i < 71 ==> is_lower_hex(#[trigger] digest[i]),
        0 <= index,
    ensures
        identifier(member_name(digest, index)),
{
    reveal_strlit("syn");
    lemma_zero_padded_reads(index as nat, 4);
    let name = member_name(digest, index);
    let middle = digest.subrange(7, 15);
    assert forall|k: int| 0 <= k < name.len() implies crate::ontology::identifier_char(
        #[trigger] name[k],
    ) by {
        if k < 3 {
            assert(name[k] == "syn"@[k]);
        } else if k < 11 {
            assert(name[k] == middle[k - 3]);
            assert(middle[k - 3] == digest[k + 4]);
        } else {
            assert(name[k] == zero_padded(index as nat, 4)[k - 11]);
        }
    }
    assert(name[0] == "syn"@[0]);
}

proof fn lemma_fleet_accepted(digest: Seq<char>, count: nat)
    requires
        count <= WORKLOAD_SIZE,
    ensures
        first_duplicate(fleet_members(digest), count) is None,
    decreases count,
{
    if count > 0 {
        lemma_fleet_accepted(digest, (count - 1) as nat);
        let list = fleet_members(digest);
        let last = count - 1;
        if named_before(list, last, list[last].name) {
            let k = choose|k: int| 0 <= k < last && (#[trigger] list[k]).name == list[last].name;
            members_are_distinct(digest, k, last);
        }
    }
}

/// The fleet of a seed is a fleet: its names are distinct, its size is right
/// and its postures are mixed.
pub proof fn planned_fleets_are_valid(digest: Seq<char>)
    ensures
        members_refusal(fleet_members(digest)) is None,
{
    let list = fleet_members(digest);
    lemma_fleet_accepted(digest, list.len());
    assert(list[0].posture == WorkloadPosture::Current);
    assert(list[1].posture == WorkloadPosture::Behind);
}

fn posture_of(index: u32) -> (posture: WorkloadPosture)
    ensures
        posture == posture_at(index as int),
{
    let turn: u32 = index % 5;
    if turn == 0 {
        WorkloadPosture::Current
    } else if turn == 1 {
        WorkloadPosture::Behind
    } else if turn == 2 {
        WorkloadPosture::Unhealthy
    } else if turn == 3 {
        WorkloadPosture::Blocked
    } else {
        WorkloadPosture::Disconnected
    }
}

/// A plan is the fleet of a specification.
pub open spec fn is_fleet_of(plan: WorkloadPlan, spec: WorkloadSpec) -> bool {
    let digest = prefixed_digest(utf8(spec.seed@));
    &&& plan.seed_digest@ == digest
    &&& plan.product@ == spec.product@
    &&& plan.channel@ == spec.channel@
    &&& plan.current_version@ == spec.current_version@
    &&& plan.behind_version@ == spec.behind_version@
    &&& member_models(plan.members@) == fleet_members(digest)
}

fn fleet_of(digest: &str) -> (members: Vec<WorkloadMember>)
    requires
        digest@.len() == 71,
    ensures
        member_models(members@) == fleet_members(digest@),
{
    let middle = digest.substring_char(7, 15);
    let ghost fleet = fleet_members(digest@);
    let mut members: Vec<WorkloadMember> = Vec::new();
    let mut index: u32 = 0;
    assert(member_models(members@) =~= fleet.take(0));
    while index < WORKLOAD_SIZE
        invariant
            index <= WORKLOAD_SIZE,
            digest@.len() == 71,
            middle@ == digest@.subrange(7, 15),
            fleet == fleet_members(digest@),
            member_models(members@) == fleet.take(index as int),
        decreases WORKLOAD_SIZE - index,
    {
        let mut name = "syn".to_owned();
        name.append(middle);
        name.append(zero_pad(index as u64, 4).as_str());
        let ghost before = members@;
        members.push(WorkloadMember { name, posture: posture_of(index) });
        assert(member_models(members@) =~= member_models(before).push(fleet[index as int]));
        assert(member_models(members@) =~= fleet.take(index + 1));
        index = index + 1;
    }
    assert(member_models(members@) =~= fleet);
    members
}

/// Plan the fleet of a specification.
pub fn plan_workload(spec: &WorkloadSpec) -> (result: Result<WorkloadPlan, Error>)
    ensures
        refusal(result) == spec_refusal(*spec),
        result matches Ok(plan) ==> is_fleet_of(plan, *spec),
{
    match spec.validate() {
        Err(error) => return Err(error),
        Ok(_) => {},
    }
    let digest = match seed_digest(&spec.seed) {
        Err(error) => return Err(error),
        Ok(text) => text,
    };
    proof {
        reveal_strlit("sha256:");
        assert(digest@.skip(7).len() == 64);
    }
    let members = fleet_of(&digest);
    Ok(
        WorkloadPlan {
            seed_digest: digest,
            product: spec.product.clone(),
            channel: spec.channel.clone(),
            current_version: spec.current_version.clone(),
            behind_version: spec.behind_version.clone(),
            members,
        },
    )
}

/// Each environment of the fleet of a seed has a name that identifies it.
pub proof fn planned_names_are_identifiers(digest: Seq<char>, index: int)
    requires
        digest.len() == 71,
        forall|i: int| 7 <= i < 71 ==> is_lower_hex(#[trigger] digest[i]),
        0 <= index < WORKLOAD_SIZE,
    ensures
        identifier_refusal("environment"@, fleet_members(digest)[index].name) is None,
{
    lemma_member_identifier(digest, index);
}

/// How many of the environments have a posture.
pub open spec fn posture_count(list: Seq<MemberModel>, posture: WorkloadPosture) -> nat
    decreases list.len(),
{
    if list.len() == 0 {
        0
    } else {
        posture_count(list.drop_last(), posture) + (if list.last().posture == posture {
            1nat
        } else {
            0nat
        })
    }
}

fn count_posture(members: &Vec<WorkloadMember>, posture: WorkloadPosture) -> (count: u32)
    requires
        members@.len() <= u32::MAX,
    ensures
        count == posture_count(member_models(members@), posture),
{
    let ghost models = member_models(members@);
    let mut count: u32 = 0;
    let mut i: usize = 0;
    while i < members.len()
        invariant
            i <= members.len(),
            members@.len() <= u32::MAX,
            models == member_models(members@),
            count <= i,
            count == posture_count(models.take(i as int), posture),
        decreases members.len() - i,
    {
        assert(models.take(i + 1).drop_last() =~= models.take(i as int));
        assert(models.take(i + 1).last() == members@[i as int]@);
        if members[i].posture == posture {
            count = count + 1;
        }
        i = i + 1;
    }
    assert(models.take(models.len() as int) =~= models);
    count
}

/// The counts of the postures that occur.
pub open spec fn counts_map(list: Seq<MemberModel>) -> Map<Seq<char>, u32> {
    Map::new(
        |word: Seq<char>|
            posture_named(word) is Some && posture_count(list, posture_named(word)->0) > 0,
        |word: Seq<char>| posture_count(list, posture_named(word)->0) as u32,
    )
}

fn record_count(counts: &mut TextMap<u32>, members: &Vec<WorkloadMember>, posture: WorkloadPosture)
    requires
        members@.len() <= u32::MAX,
    ensures
        final(counts)@ == (if posture_count(member_models(members@), posture) > 0 {
            old(counts)@.insert(
                posture.word(),
                posture_count(member_models(members@), posture) as u32,
            )
        } else {
            old(counts)@
        }),
{
    let count = count_posture(members, posture);
    if count > 0 {
        counts.insert(posture.as_str().to_owned(), count);
    }
}

/// How many environments of a fleet have each posture that occurs.
pub fn posture_counts(plan: &WorkloadPlan) -> (counts: TextMap<u32>)
    requires
        plan.members@.len() <= u32::MAX,
    ensures
        counts@ == counts_map(member_models(plan.members@)),
{
    let ghost list = member_models(plan.members@);
    let mut counts: TextMap<u32> = TextMap::new();
    record_count(&mut counts, &plan.members, WorkloadPosture::Current);
    record_count(&mut counts, &plan.members, WorkloadPosture::Behind);
    record_count(&mut counts, &plan.members, WorkloadPosture::Unhealthy);
    record_count(&mut counts, &plan.members, WorkloadPosture::Blocked);
    record_count(&mut counts, &plan.members, WorkloadPosture::Disconnected);
    proof {
        lemma_posture_words();
        assert(counts@ =~= counts_map(list));
    }
    counts
}

/// What is said of a fleet.
pub open spec fn workload_text(digest: Seq<char>, list: Seq<MemberModel>) -> Seq<char> {
    "synthetic workload seed_digest="@ + digest + " environments="@ + decimal(list.len())
        + "\n  current="@ + decimal(posture_count(list, WorkloadPosture::Current)) + " behind="@
        + decimal(posture_count(list, WorkloadPosture::Behind)) + " unhealthy="@ + decimal(
        posture_count(list, WorkloadPosture::Unhealthy),
    ) + " blocked="@ + decimal(posture_count(list, WorkloadPosture::Blocked))
        + " disconnected="@ + decimal(posture_count(list, WorkloadPosture::Disconnected))
}

/// Say what a fleet is made of.
pub fn format_workload(plan: &WorkloadPlan) -> (text: String)
    requires
        plan.members@.len() <= u32::MAX,
    ensures
        text@ == workload_text(plan.seed_digest@, member_models(plan.members@)),
{
    let mut text = "synthetic workload seed_digest=".to_owned();
    text.append(plan.seed_digest.as_str());
    text.append(" environments=");
    text.append(decimal_text(plan.members.len() as u64).as_str());
    text.append("\n  current=");
    text.append(
        decimal_text(count_posture(&plan.members, WorkloadPosture::Current) as u64).as_str(),
    );
    text.append(" behind=");
    text.append(
        decimal_text(count_posture(&plan.members, WorkloadPosture::Behind) as u64).as_str(),
    );
    text.append(" unhealthy=");
    text.append(
        decimal_text(count_posture(&plan.members, WorkloadPosture::Unhealthy) as u64).as_str(),
    );
    text.append(" blocked=");
    text.append(
        decimal_text(count_posture(&plan.members, WorkloadPosture::Blocked) as u64).as_str(),
    );
    text.append(" disconnected=");
    text.append(
        decimal_text(count_posture(&plan.members, WorkloadPosture::Disconnected) as u64).as_str(),
    );
    text
}

proof fn lemma_next_count(digest: Seq<char>, at: int, posture: WorkloadPosture)
    requires
        0 <= at < WORKLOAD_SIZE,
    ensures
        posture_count(fleet_members(digest).take(at + 1), posture) == posture_count(
            fleet_members(digest).take(at),
            posture,
        ) + (if posture_at(at) == posture {
            1nat
        } else {
            0nat
        }),
{
    let list = fleet_members(digest);
    assert(list.take(at + 1).drop_last() =~= list.take(at));
    assert(list.take(at + 1).last() == list[at]);
}

proof fn lemma_even_counts(digest: Seq<char>, turns: nat, posture: WorkloadPosture)
    requires
        5 * turns <= WORKLOAD_SIZE,
    ensures
        posture_count(fleet_members(digest).take((5 * turns) as int), posture) == turns,
    decreases turns,
{
    if turns == 0 {
        assert(fleet_members(digest).take(0).len() == 0);
    } else {
        lemma_even_counts(digest, (turns - 1) as nat, posture);
        let at = 5 * (turns - 1);
        lemma_next_count(digest, at, posture);
        lemma_next_count(digest, at + 1, posture);
        lemma_next_count(digest, at + 2, posture);
        lemma_next_count(digest, at + 3, posture);
        lemma_next_count(digest, at + 4, posture);
    }
}

/// The fleet of a seed has each posture equally often.
pub proof fn postures_are_mixed_evenly(digest: Seq<char>, posture: WorkloadPosture)
    ensures
        posture_count(fleet_members(digest), posture) == 200,
{
    lemma_even_counts(digest, 200, posture);
    assert(fleet_members(digest).take(1000) =~= fleet_members(digest));
}

/// Why a fleet cannot be planted.
pub open spec fn channel_refusal(
    product: Seq<char>,
    channel: Seq<char>,
    exists_already: bool,
) -> Option<Seq<char>> {
    refuse_unless(
        exists_already,
        "channel "@ + product + "/"@ + channel
            + " does not exist — publish and promote a signed release first"@,
    )
}

/// Require the channel of a fleet.
pub fn require_channel(plan: &WorkloadPlan, exists_already: bool) -> (result: Result<(), Error>)
    ensures
        refusal(result) == channel_refusal(plan.product@, plan.channel@, exists_already),
{
    if !exists_already {
        let mut message = "channel ".to_owned();
        message.append(plan.product.as_str());
        message.append("/");
        message.append(plan.channel.as_str());
        message.append(" does not exist — publish and promote a signed release first");
        return Err(Error::new(message));
    }
    Ok(())
}

/// The error where planting stopped after a number of environments.
pub fn incomplete(planted: u32, fault: &str) -> (error: Error)
    ensures
        error@ == "partial materialization is incomplete ("@ + decimal(planted as nat) + "/"@
            + decimal(WORKLOAD_SIZE as nat) + "): "@ + fault@,
{
    let mut message = "partial materialization is incomplete (".to_owned();
    message.append(decimal_text(planted as u64).as_str());
    message.append("/");
    message.append(decimal_text(WORKLOAD_SIZE as u64).as_str());
    message.append("): ");
    message.append(fault);
    Error::new(message)
}

/// How an environment of a fleet is planted.
#[derive(Debug, PartialEq, Eq)]
pub struct Planting {
    pub description: String,
    /// It is set apart from the network, and nothing is deployed.
    pub isolated: bool,
    /// It is subscribed to the channel of the fleet.
    pub subscribed: bool,
    /// What is recorded as deployed.
    pub deployed: Option<String>,
    /// It requires a fact that it does not have.
    pub blocked: bool,
    /// Properties that are set.
    pub properties: TextMap<String>,
}

/// The properties of a planted environment.
pub open spec fn planted_properties(
    digest: Seq<char>,
    product: Seq<char>,
    posture: WorkloadPosture,
) -> Map<Seq<char>, Seq<char>> {
    let marked = Map::<Seq<char>, Seq<char>>::empty().insert(PROPERTY_SEED@, digest).insert(
        PROPERTY_POSTURE@,
        posture.word(),
    );
    if posture == WorkloadPosture::Unhealthy {
        marked.insert("deployment_health."@ + product, "unhealthy"@).insert(
            "deployment_error."@ + product,
            "synthetic unhealthy target"@,
        )
    } else {
        marked
    }
}

/// What is recorded as deployed in an environment.
pub open spec fn planted_version(
    posture: WorkloadPosture,
    current: Seq<char>,
    behind: Seq<char>,
) -> Option<Seq<char>> {
    match posture {
        WorkloadPosture::Current | WorkloadPosture::Unhealthy => Some(current),
        WorkloadPosture::Behind => Some(behind),
        _ => None,
    }
}

/// How an environment of a fleet is planted, by its posture.
pub fn planting(plan: &WorkloadPlan, posture: WorkloadPosture) -> (result: Planting)
    ensures
        result.description@ == "synthetic "@ + plan.seed_digest@ + " "@ + posture.word(),
        result.isolated == (posture == WorkloadPosture::Disconnected),
        result.subscribed == (posture != WorkloadPosture::Disconnected),
        crate::text::opt_text(result.deployed) == planted_version(
            posture,
            plan.current_version@,
            plan.behind_version@,
        ),
        result.blocked == (posture == WorkloadPosture::Blocked),
        crate::text_map::text_values(result.properties@) == planted_properties(
            plan.seed_digest@,
            plan.product@,
            posture,
        ),
{
    broadcast use crate::text_map::group_text_values;

    let mut description = "synthetic ".to_owned();
    description.append(plan.seed_digest.as_str());
    description.append(" ");
    description.append(posture.as_str());
    let mut properties: TextMap<String> = TextMap::new();
    properties.insert(PROPERTY_SEED.to_owned(), plan.seed_digest.clone());
    properties.insert(PROPERTY_POSTURE.to_owned(), posture.as_str().to_owned());
    if posture == WorkloadPosture::Unhealthy {
        let mut health = "deployment_health.".to_owned();
        health.append(plan.product.as_str());
        let mut fault = "deployment_error.".to_owned();
        fault.append(plan.product.as_str());
        properties.insert(health, "unhealthy".to_owned());
        properties.insert(fault, "synthetic unhealthy target".to_owned());
    }
    let deployed = match posture {
        WorkloadPosture::Current => Some(plan.current_version.clone()),
        WorkloadPosture::Unhealthy => Some(plan.current_version.clone()),
        WorkloadPosture::Behind => Some(plan.behind_version.clone()),
        _ => None,
    };
    Planting {
        description,
        isolated: posture == WorkloadPosture::Disconnected,
        subscribed: posture != WorkloadPosture::Disconnected,
        deployed,
        blocked: posture == WorkloadPosture::Blocked,
        properties,
    }
}

/// Why a stored environment of a fleet is refused.
pub open spec fn stored_refusal(
    name: Seq<char>,
    properties: Map<Seq<char>, String>,
    digest: Seq<char>,
) -> Option<Seq<char>> {
    let posture = text_at(properties, PROPERTY_POSTURE@);
    if text_at(properties, PROPERTY_SEED@) != Some(digest) {
        None
    } else if posture is None {
        Some("environment "@ + name + " is missing workload posture"@)
    } else {
        posture_refusal(posture->0)
    }
}

/// The posture that a stored environment has in the fleet of a seed. Others
/// are passed over.
pub fn stored_posture(name: &str, properties: &TextMap<String>, seed_digest: &str) -> (result: Result<
    Option<WorkloadPosture>,
    Error,
>)
    ensures
        refusal(result) == stored_refusal(name@, properties@, seed_digest@),
        result matches Ok(posture) ==> posture == (if text_at(properties@, PROPERTY_SEED@) == Some(
            seed_digest@,
        ) {
            posture_named(text_at(properties@, PROPERTY_POSTURE@)->0)
        } else {
            None
        }),
{
    match properties.text(PROPERTY_SEED) {
        None => return Ok(None),
        Some(digest) => {
            if !same(digest, seed_digest) {
                return Ok(None);
            }
        },
    }
    match properties.text(PROPERTY_POSTURE) {
        None => {
            let mut message = "environment ".to_owned();
            message.append(name);
            message.append(" is missing workload posture");
            Err(Error::new(message))
        },
        Some(word) => match WorkloadPosture::parse(word) {
            Err(error) => Err(error),
            Ok(posture) => Ok(Some(posture)),
        },
    }
}

/// The posture that a stored environment has in the fleet of a seed.
pub open spec fn posture_in(environment: StoredEnvironment, digest: Seq<char>) -> Option<
    WorkloadPosture,
> {
    if text_at(environment.properties@, PROPERTY_SEED@) == Some(digest) {
        posture_named(text_at(environment.properties@, PROPERTY_POSTURE@)->0)
    } else {
        None
    }
}

/// Why stored environments are refused: the first that is.
pub open spec fn stored_refusals(list: Seq<StoredEnvironment>, digest: Seq<char>) -> Option<
    Seq<char>,
>
    decreases list.len(),
{
    if list.len() == 0 {
        None
    } else {
        first_refusal(
            stored_refusals(list.drop_last(), digest),
            stored_refusal(list.last().name@, list.last().properties@, digest),
        )
    }
}

/// How many stored environments have a posture in the fleet of a seed.
pub open spec fn stored_count(
    list: Seq<StoredEnvironment>,
    digest: Seq<char>,
    posture: WorkloadPosture,
) -> nat
    decreases list.len(),
{
    if list.len() == 0 {
        0
    } else {
        stored_count(list.drop_last(), digest, posture) + (if posture_in(list.last(), digest)
            == Some(posture) {
            1nat
        } else {
            0nat
        })
    }
}

/// The counts of the postures that occur among stored environments.
pub open spec fn stored_counts(list: Seq<StoredEnvironment>, digest: Seq<char>) -> Map<
    Seq<char>,
    u32,
> {
    Map::new(
        |word: Seq<char>|
            posture_named(word) is Some && stored_count(list, digest, posture_named(word)->0) > 0,
        |word: Seq<char>| stored_count(list, digest, posture_named(word)->0) as u32,
    )
}

proof fn lemma_stored_stop(list: Seq<StoredEnvironment>, digest: Seq<char>, count: int)
    requires
        0 <= count <= list.len(),
        stored_refusals(list.take(count), digest) is Some,
    ensures
        stored_refusals(list, digest) == stored_refusals(list.take(count), digest),
    decreases list.len() - count,
{
    if count < list.len() {
        assert(list.take(count + 1).drop_last() =~= list.take(count));
        lemma_stored_stop(list, digest, count + 1);
    } else {
        assert(list.take(count) =~= list);
    }
}

proof fn lemma_stored_count(list: Seq<StoredEnvironment>, digest: Seq<char>, posture: WorkloadPosture)
    ensures
        stored_count(list, digest, posture) <= list.len(),
    decreases list.len(),
{
    if list.len() > 0 {
        lemma_stored_count(list.drop_last(), digest, posture);
    }
}

proof fn lemma_counts_step(
    before: Seq<StoredEnvironment>,
    environment: StoredEnvironment,
    digest: Seq<char>,
)
    ensures
        posture_in(environment, digest) is None ==> stored_counts(before.push(environment), digest)
            == stored_counts(before, digest),
        posture_in(environment, digest) matches Some(posture) ==> stored_counts(
            before.push(environment),
            digest,
        ) == stored_counts(before, digest).insert(
            posture.word(),
            (stored_count(before, digest, posture) + 1) as u32,
        ),
{
    let after = before.push(environment);
    assert(after.drop_last() =~= before);
    assert(after.last() == environment);
    assert forall|posture: WorkloadPosture| #[trigger]
        stored_count(after, digest, posture) == stored_count(before, digest, posture) + (
        if posture_in(environment, digest) == Some(posture) {
            1nat
        } else {
            0nat
        }) by {}
    match posture_in(environment, digest) {
        None => {
            assert(stored_counts(after, digest) =~= stored_counts(before, digest));
        },
        Some(posture) => {
            assert forall|word: Seq<char>|
                #[trigger] posture_named(word) == Some(posture) <==> word == posture.word() by {
                words_are_the_postures(posture, word);
            }
            assert(posture_named(posture.word()) == Some(posture));
            assert(stored_counts(after, digest) =~= stored_counts(before, digest).insert(
                posture.word(),
                (stored_count(before, digest, posture) + 1) as u32,
            ));
        },
    }
}

/// How many stored environments have each posture that occurs in the fleet of
/// a seed.
pub fn stored_posture_counts(environments: &Vec<StoredEnvironment>, seed_digest: &str) -> (result:
    Result<TextMap<u32>, Error>)
    requires
        environments@.len() <= u32::MAX,
    ensures
        refusal(result) == stored_refusals(environments@, seed_digest@),
        result matches Ok(counts) ==> counts@ == stored_counts(environments@, seed_digest@),
{
    let mut counts: TextMap<u32> = TextMap::new();
    let mut i: usize = 0;
    proof {
        assert(environments@.take(0) =~= Seq::<StoredEnvironment>::empty());
        assert(counts@ =~= stored_counts(environments@.take(0), seed_digest@));
    }
    while i < environments.len()
        invariant
            i <= environments.len(),
            environments@.len() <= u32::MAX,
            stored_refusals(environments@.take(i as int), seed_digest@) is None,
            counts@ == stored_counts(environments@.take(i as int), seed_digest@),
        decreases environments.len() - i,
    {
        let environment = &environments[i];
        let ghost before = environments@.take(i as int);
        proof {
            assert(environments@.take(i + 1).drop_last() =~= before);
            assert(environments@.take(i + 1) =~= before.push(environments@[i as int]));
            lemma_counts_step(before, environments@[i as int], seed_digest@);
        }
        match stored_posture(environment.name.as_str(), &environment.properties, seed_digest) {
            Err(error) => {
                proof {
                    lemma_stored_stop(environments@, seed_digest@, i + 1);
                }
                return Err(error);
            },
            Ok(None) => {},
            Ok(Some(posture)) => {
                let word = posture.as_str();
                proof {
                    lemma_stored_count(before, seed_digest@, posture);
                    words_are_the_postures(posture, word@);
                }
                let seen: u32 = match counts.get(word) {
                    Some(count) => *count,
                    None => 0,
                };
                counts.insert(word.to_owned(), seen + 1);
            },
        }
        i = i + 1;
    }
    assert(environments@.take(environments@.len() as int) =~= environments@);
    Ok(counts)
}

/// A word is read as the posture that is shown by it, and no other word is.
pub proof fn postures_are_read_by_their_words(
    posture: WorkloadPosture,
    word: &'static str,
    value: &str,
    result: Result<WorkloadPosture, Error>,
)
    requires
        call_ensures(WorkloadPosture::as_str, (posture,), word),
        call_ensures(WorkloadPosture::parse, (value,), result),
    ensures
        value@ == word@ <==> result == Ok::<WorkloadPosture, Error>(posture),
{
    words_are_the_postures(posture, value@);
}

/// A seed is taken if and only if it says something, has no white space at
/// either end, at most 128 bytes, no control character, and nothing that
/// credentials are passed with. Its digest is that of its bytes.
pub proof fn seeds_that_are_taken(seed: &str, result: Result<String, Error>)
    requires
        call_ensures(seed_digest, (seed,), result),
    ensures
        result is Ok <==> {
            let lower = seed@.map_values(|c: char| ascii_lower(c));
            &&& seed@.len() > 0
            &&& trimmed(seed@) == seed@
            &&& utf8(seed@).len() <= 128
            &&& forall|i: int| 0 <= i < seed@.len() ==> !control(#[trigger] seed@[i])
            &&& !contains_text(lower, "bearer "@)
            &&& !contains_text(lower, "password="@)
            &&& !contains_text(lower, "secret="@)
            &&& !contains_text(lower, "token="@)
        },
        result matches Ok(digest) ==> digest@ == prefixed_digest(utf8(seed@)),
{
}

/// A fleet can be made if and only if its seed is taken, its product, channel
/// and versions are identifiers, and the versions differ.
pub proof fn fleets_that_can_be_made(
    spec: &WorkloadSpec,
    text: &str,
    seed: Result<String, Error>,
    result: Result<(), Error>,
)
    requires
        call_ensures(WorkloadSpec::validate, (spec,), result),
        text@ == spec.seed@,
        call_ensures(seed_digest, (text,), seed),
    ensures
        result is Ok <==> seed is Ok && identifier_refusal("product"@, spec.product@) is None
            && identifier_refusal("channel"@, spec.channel@) is None && identifier_refusal(
            "current version"@,
            spec.current_version@,
        ) is None && identifier_refusal("behind version"@, spec.behind_version@) is None
            && spec.current_version@ != spec.behind_version@,
{
}

/// A planned fleet has a thousand environments with names of their own, and the
/// five postures take turns among them.
pub proof fn planned_fleets_are_mixed(
    spec: &WorkloadSpec,
    result: Result<WorkloadPlan, Error>,
)
    requires
        call_ensures(plan_workload, (spec,), result),
        result is Ok,
    ensures
        ({
            let members = result->Ok_0.members@;
            &&& members.len() == 1000
            &&& forall|i: int, j: int|
                0 <= i < j < 1000 ==> (#[trigger] members[i]).name@ != (
                #[trigger] members[j]).name@
            &&& forall|i: int|
                0 <= i < 1000 ==> (#[trigger] members[i]).posture == (if i % 5 == 0 {
                    WorkloadPosture::Current
                } else if i % 5 == 1 {
                    WorkloadPosture::Behind
                } else if i % 5 == 2 {
                    WorkloadPosture::Unhealthy
                } else if i % 5 == 3 {
                    WorkloadPosture::Blocked
                } else {
                    WorkloadPosture::Disconnected
                })
        }),
        result->Ok_0.seed_digest@ == prefixed_digest(utf8(spec.seed@)),
        result->Ok_0.product@ == spec.product@,
        result->Ok_0.channel@ == spec.channel@,
        result->Ok_0.current_version@ == spec.current_version@,
        result->Ok_0.behind_version@ == spec.behind_version@,
{
    let members = result->Ok_0.members@;
    let digest = prefixed_digest(utf8(spec.seed@));
    let models = member_models(members);
    assert(models.len() == members.len());
    assert forall|i: int| 0 <= i < 1000 implies (#[trigger] members[i])@ == fleet_members(
        digest,
    )[i] by {
        assert(models[i] == members[i]@);
    }
    assert forall|i: int, j: int| 0 <= i < j < 1000 implies (#[trigger] members[i]).name@ != (
    #[trigger] members[j]).name@ by {
        members_are_distinct(digest, i, j);
        assert(members[i]@ == fleet_members(digest)[i]);
        assert(members[j]@ == fleet_members(digest)[j]);
    }
    assert forall|i: int| 0 <= i < 1000 implies (#[trigger] members[i]).posture == posture_at(
        i,
    ) by {
        assert(members[i]@ == fleet_members(digest)[i]);
    }
}

/// The same seed gives the same fleet.
pub proof fn one_seed_gives_one_fleet(
    left: &WorkloadSpec,
    right: &WorkloadSpec,
    first: Result<WorkloadPlan, Error>,
    second: Result<WorkloadPlan, Error>,
)
    requires
        call_ensures(plan_workload, (left,), first),
        call_ensures(plan_workload, (right,), second),
        left.seed@ == right.seed@,
        first is Ok && second is Ok,
    ensures
        first->Ok_0.seed_digest@ == second->Ok_0.seed_digest@,
        member_models(first->Ok_0.members@) == member_models(second->Ok_0.members@),
{
}

proof fn lemma_no_duplicate(list: Seq<MemberModel>, count: nat)
    requires
        count <= list.len(),
    ensures
        first_duplicate(list, count) is None <==> forall|i: int, j: int|
            0 <= i < j < count ==> (#[trigger] list[i]).name != (#[trigger] list[j]).name,
    decreases count,
{
    if count > 0 {
        lemma_no_duplicate(list, (count - 1) as nat);
        if first_duplicate(list, count) is None {
            assert forall|i: int, j: int| 0 <= i < j < count implies (#[trigger] list[i]).name != (
            #[trigger] list[j]).name by {
                if j == count - 1 {
                    assert(!named_before(list, count - 1, list[count - 1].name));
                }
            }
        }
    }
}

/// A list of environments is a fleet if and only if no name occurs twice, it has
/// the size of a fleet, and not all stand the same.
pub proof fn lists_that_are_fleets(members: &Vec<WorkloadMember>, result: Result<(), Error>)
    requires
        call_ensures(validate_members, (members,), result),
    ensures
        result is Ok <==> {
            &&& forall|i: int, j: int|
                0 <= i < j < members@.len() ==> (#[trigger] members@[i]).name@ != (
                #[trigger] members@[j]).name@
            &&& members@.len() % 0x1_0000_0000 == 1000
            &&& exists|i: int, j: int|
                0 <= i < members@.len() && 0 <= j < members@.len() && (
                #[trigger] members@[i]).posture != (#[trigger] members@[j]).posture
        },
{
    let models = member_models(members@);
    lemma_no_duplicate(models, models.len());
    assert(models.len() == members@.len());
    assert forall|i: int| 0 <= i < members@.len() implies models[i] == (
    #[trigger] members@[i])@ by {};
    if forall|i: int, j: int|
        0 <= i < j < members@.len() ==> (#[trigger] members@[i]).name@ != (
        #[trigger] members@[j]).name@ {
        assert forall|i: int, j: int| 0 <= i < j < models.len() implies (
        #[trigger] models[i]).name != (#[trigger] models[j]).name by {
            assert(members@[i].name@ != members@[j].name@);
        }
    } else {
        let (i, j) = choose|i: int, j: int|
            0 <= i < j < members@.len() && (#[trigger] members@[i]).name@ == (
            #[trigger] members@[j]).name@;
        assert(models[i].name == models[j].name);
    }
    if uniform(models) {
        assert forall|i: int, j: int|
            0 <= i < members@.len() && 0 <= j < members@.len() implies (
        #[trigger] members@[i]).posture == (#[trigger] members@[j]).posture by {
            assert(models[i].posture == models[j].posture);
        }
    } else {
        let (i, j) = choose|i: int, j: int|
            0 <= i < models.len() && 0 <= j < models.len() && (#[trigger] models[i]).posture != (
            #[trigger] models[j]).posture;
        assert(members@[i].posture != members@[j].posture);
    }
}

/// Environments of a posture.
pub open spec fn of_posture(posture: WorkloadPosture) -> spec_fn(WorkloadMember) -> bool {
    |member: WorkloadMember| member.posture == posture
}

proof fn lemma_members_counted(list: Seq<WorkloadMember>, posture: WorkloadPosture)
    ensures
        posture_count(member_models(list), posture) == list.filter(of_posture(posture)).len(),
        posture_count(member_models(list), posture) <= list.len(),
    decreases list.len(),
{
    reveal(Seq::filter);
    if list.len() > 0 {
        lemma_members_counted(list.drop_last(), posture);
        assert(member_models(list).drop_last() =~= member_models(list.drop_last()));
        assert(member_models(list).last() == list.last()@);
    }
}

/// Each posture that occurs in a fleet is counted under its word, and nothing
/// else is.
pub proof fn occurring_postures_are_counted(
    plan: &WorkloadPlan,
    counts: TextMap<u32>,
    posture: WorkloadPosture,
)
    requires
        plan.members@.len() <= u32::MAX,
        call_ensures(posture_counts, (plan,), counts),
    ensures
        ({
            let found = plan.members@.filter(of_posture(posture)).len();
            &&& counts@.contains_key(posture.word()) <==> found > 0
            &&& found > 0 ==> counts@[posture.word()] == found
        }),
        forall|word: Seq<char>| #[trigger]
            counts@.contains_key(word) ==> posture_named(word) is Some,
{
    lemma_members_counted(plan.members@, posture);
    words_are_the_postures(posture, posture.word());
}

/// An environment of a fleet is planted as it stands: it runs the current
/// version, or the one behind, it is blocked by a missing fact, reports itself
/// unhealthy, or is set apart without a subscription.
pub proof fn environments_are_planted_as_they_stand(
    plan: &WorkloadPlan,
    posture: WorkloadPosture,
    result: Planting,
)
    requires
        call_ensures(planting, (plan, posture), result),
    ensures
        posture == WorkloadPosture::Current || posture == WorkloadPosture::Unhealthy ==> (
        result.deployed matches Some(version) && version@ == plan.current_version@),
        posture == WorkloadPosture::Behind ==> (result.deployed matches Some(version) && version@
            == plan.behind_version@),
        posture == WorkloadPosture::Blocked || posture == WorkloadPosture::Disconnected
            ==> result.deployed is None,
        result.isolated <==> posture == WorkloadPosture::Disconnected,
        result.subscribed <==> posture != WorkloadPosture::Disconnected,
        result.blocked <==> posture == WorkloadPosture::Blocked,
{
}

/// A stored environment is counted in the fleet of a seed if and only if it is
/// marked with its digest, and stands as it is marked; a mark that is no posture
/// is refused.
pub proof fn stored_environments_are_marked(
    name: &str,
    properties: &TextMap<String>,
    seed: &str,
    result: Result<Option<WorkloadPosture>, Error>,
)
    requires
        call_ensures(stored_posture, (name, properties, seed), result),
    ensures
        ({
            let marked = text_at(properties@, "synthetic_workload.seed_digest"@) == Some(seed@);
            let word = text_at(properties@, "synthetic_workload.posture"@);
            &&& !marked ==> result == Ok::<Option<WorkloadPosture>, Error>(None)
            &&& marked ==> (result is Ok <==> word is Some && posture_named(word->0) is Some)
            &&& marked && result is Ok ==> result->Ok_0 is Some && result->Ok_0->0.word()
                == word->0
        }),
{
    let word = text_at(properties@, PROPERTY_POSTURE@);
    if word is Some && posture_named(word->0) is Some {
        words_are_the_postures(posture_named(word->0)->0, word->0);
    }
}

/// A fleet is planted only on a channel that exists.
pub proof fn fleets_need_their_channel(
    plan: &WorkloadPlan,
    exists_already: bool,
    result: Result<(), Error>,
)
    requires
        call_ensures(require_channel, (plan, exists_already), result),
    ensures
        result is Ok <==> exists_already,
{
}

proof fn lemma_stored_refusals(list: Seq<StoredEnvironment>, digest: Seq<char>)
    ensures
        stored_refusals(list, digest) is None <==> forall|i: int|
            0 <= i < list.len() ==> stored_refusal(
                (#[trigger] list[i]).name@,
                list[i].properties@,
                digest,
            ) is None,
    decreases list.len(),
{
    if list.len() > 0 {
        let front = list.drop_last();
        lemma_stored_refusals(front, digest);
        if stored_refusals(list, digest) is None {
            assert forall|i: int| 0 <= i < list.len() implies stored_refusal(
                (#[trigger] list[i]).name@,
                list[i].properties@,
                digest,
            ) is None by {
                if i < front.len() {
                    assert(front[i] == list[i]);
                }
            }
        } else if forall|i: int|
            0 <= i < list.len() ==> stored_refusal(
                (#[trigger] list[i]).name@,
                list[i].properties@,
                digest,
            ) is None {
            assert forall|i: int| 0 <= i < front.len() implies stored_refusal(
                (#[trigger] front[i]).name@,
                front[i].properties@,
                digest,
            ) is None by {
                assert(front[i] == list[i]);
            }
            assert(stored_refusal(
                list[list.len() - 1].name@,
                list[list.len() - 1].properties@,
                digest,
            ) is None);
        }
    }
}

/// A stored fleet is counted where the posture of each of its environments can
/// be read.
pub proof fn readable_fleets_are_counted(
    environments: &Vec<StoredEnvironment>,
    digest: &str,
    name: &str,
    at: int,
    one: Result<Option<WorkloadPosture>, Error>,
    result: Result<TextMap<u32>, Error>,
)
    requires
        environments@.len() <= u32::MAX,
        call_ensures(stored_posture_counts, (environments, digest), result),
        0 <= at < environments@.len(),
        name@ == environments@[at].name@,
        call_ensures(stored_posture, (name, &environments@[at].properties, digest), one),
    ensures
        one is Err ==> result is Err,
        result is Err ==> exists|i: int|
            0 <= i < environments@.len() && stored_refusal(
                (#[trigger] environments@[i]).name@,
                environments@[i].properties@,
                digest@,
            ) is Some,
{
    lemma_stored_refusals(environments@, digest@);
}

/// An environment is planted with the marks of its fleet, by which its posture
/// is read back, and reports itself unhealthy where it stands so, and only
/// there.
pub proof fn planted_marks_read_back(
    plan: &WorkloadPlan,
    posture: WorkloadPosture,
    result: Planting,
    name: &str,
    digest: &str,
    stored: Result<Option<WorkloadPosture>, Error>,
)
    requires
        call_ensures(planting, (plan, posture), result),
        digest@ == plan.seed_digest@,
        call_ensures(stored_posture, (name, &result.properties, digest), stored),
    ensures
        stored == Ok::<Option<WorkloadPosture>, Error>(Some(posture)),
        crate::text_map::text_values(result.properties@).contains_key(
            "deployment_health."@ + plan.product@,
        ) <==> posture == WorkloadPosture::Unhealthy,
        posture == WorkloadPosture::Unhealthy ==> crate::text_map::text_values(
            result.properties@,
        )["deployment_health."@ + plan.product@] == "unhealthy"@,
{
    reveal_strlit("synthetic_workload.seed_digest");
    reveal_strlit("synthetic_workload.posture");
    reveal_strlit("deployment_health.");
    reveal_strlit("deployment_error.");
    let health = "deployment_health."@ + plan.product@;
    let error = "deployment_error."@ + plan.product@;
    assert(health[0] == 'd' && health[11] == 'h');
    assert(error[0] == 'd' && error[11] == 'e');
    let seed = PROPERTY_SEED@;
    let mark = PROPERTY_POSTURE@;
    assert(seed.len() != mark.len());
    assert(seed[0] != 'd' && mark[0] != 'd');
    let map = crate::text_map::text_values(result.properties@);
    assert(map.contains_key(seed) && map[seed] == plan.seed_digest@);
    assert(map.contains_key(mark) && map[mark] == posture.word());
    assert(result.properties@.contains_key(seed) && result.properties@.contains_key(mark));
    words_are_the_postures(posture, posture.word());
}

} // verus!
