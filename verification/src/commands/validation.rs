//! The rules that inputs must meet before anything is stored, and the input
//! records they are declared on.

use crate::error::{
    add_error, field_errors_of, holds_nothing, is_clear, nested_fields_of, no_errors, with_error,
    Violation,
};
use crate::text::text_eq;
use vstd::prelude::*;
use vstd::string::*;

verus! {

/// The kinds of place a location can be.
pub open spec fn is_location_type(value: Seq<char>) -> bool {
    ||| value == "world"@
    ||| value == "continent"@
    ||| value == "region"@
    ||| value == "territory"@
    ||| value == "settlement"@
    ||| value == "district"@
    ||| value == "building"@
    ||| value == "room"@
    ||| value == "landmark"@
    ||| value == "wilderness"@
}

/// The kinds of organization.
pub open spec fn is_org_type(value: Seq<char>) -> bool {
    ||| value == "government"@
    ||| value == "guild"@
    ||| value == "religion"@
    ||| value == "military"@
    ||| value == "criminal"@
    ||| value == "mercantile"@
    ||| value == "academic"@
    ||| value == "secret_society"@
    ||| value == "family"@
    ||| value == "other"@
}

/// The states a quest can be in.
pub open spec fn is_quest_status(value: Seq<char>) -> bool {
    ||| value == "planned"@
    ||| value == "available"@
    ||| value == "active"@
    ||| value == "completed"@
    ||| value == "failed"@
    ||| value == "abandoned"@
}

/// The roles a quest can play in the plot.
pub open spec fn is_plot_type(value: Seq<char>) -> bool {
    ||| value == "main"@
    ||| value == "secondary"@
    ||| value == "side"@
    ||| value == "background"@
}

/// What is said of a location type outside the allowed kinds.
pub open spec fn location_type_message() -> Seq<char> {
    "must be one of: world, continent, region, territory, settlement, district, building, room, landmark, wilderness"@
}

/// What is said of an organization type outside the allowed kinds.
pub open spec fn org_type_message() -> Seq<char> {
    "must be one of: government, guild, religion, military, criminal, mercantile, academic, secret_society, family, other"@
}

/// What is said of a quest status outside the allowed states.
pub open spec fn quest_status_message() -> Seq<char> {
    "must be one of: planned, available, active, completed, failed, abandoned"@
}

/// What is said of a plot type outside the allowed roles.
pub open spec fn plot_type_message() -> Seq<char> {
    "must be one of: main, secondary, side, background"@
}

/// Decides [`is_location_type`].
pub fn location_type_allowed(value: &str) -> (r: bool)
    ensures
        r == is_location_type(value@),
{
    text_eq(value, "world") || text_eq(value, "continent") || text_eq(value, "region") || text_eq(
        value,
        "territory",
    ) || text_eq(value, "settlement") || text_eq(value, "district") || text_eq(value, "building")
        || text_eq(value, "room") || text_eq(value, "landmark") || text_eq(value, "wilderness")
}

/// Decides [`is_org_type`].
pub fn org_type_allowed(value: &str) -> (r: bool)
    ensures
        r == is_org_type(value@),
{
    text_eq(value, "government") || text_eq(value, "guild") || text_eq(value, "religion")
        || text_eq(value, "military") || text_eq(value, "criminal") || text_eq(
        value,
        "mercantile",
    ) || text_eq(value, "academic") || text_eq(value, "secret_society") || text_eq(
        value,
        "family",
    ) || text_eq(value, "other")
}

/// Decides [`is_quest_status`].
pub fn quest_status_allowed(value: &str) -> (r: bool)
    ensures
        r == is_quest_status(value@),
{
    text_eq(value, "planned") || text_eq(value, "available") || text_eq(value, "active")
        || text_eq(value, "completed") || text_eq(value, "failed") || text_eq(value, "abandoned")
}

/// Decides [`is_plot_type`].
pub fn plot_type_allowed(value: &str) -> (r: bool)
    ensures
        r == is_plot_type(value@),
{
    text_eq(value, "main") || text_eq(value, "secondary") || text_eq(value, "side") || text_eq(
        value,
        "background",
    )
}

/// Accepts the allowed location types and names the rule for the others.
pub fn validate_location_type(value: &str) -> (r: Result<(), Violation>)
    ensures
        r is Ok <==> is_location_type(value@),
        r matches Err(e) ==> e@ == ("invalid_location_type"@, Some(location_type_message())),
{
    if location_type_allowed(value) {
        Ok(())
    } else {
        Err(
            Violation {
                code: String::from_str("invalid_location_type"),
                message: Some(
                    String::from_str(
                        "must be one of: world, continent, region, territory, settlement, district, building, room, landmark, wilderness",
                    ),
                ),
            },
        )
    }
}

/// Accepts the allowed organization types and names the rule for the others.
pub fn validate_org_type(value: &str) -> (r: Result<(), Violation>)
    ensures
        r is Ok <==> is_org_type(value@),
        r matches Err(e) ==> e@ == ("invalid_org_type"@, Some(org_type_message())),
{
    if org_type_allowed(value) {
        Ok(())
    } else {
        Err(
            Violation {
                code: String::from_str("invalid_org_type"),
                message: Some(
                    String::from_str(
                        "must be one of: government, guild, religion, military, criminal, mercantile, academic, secret_society, family, other",
                    ),
                ),
            },
        )
    }
}

/// Accepts the allowed quest states and names the rule for the others.
pub fn validate_quest_status(value: &str) -> (r: Result<(), Violation>)
    ensures
        r is Ok <==> is_quest_status(value@),
        r matches Err(e) ==> e@ == ("invalid_quest_status"@, Some(quest_status_message())),
{
    if quest_status_allowed(value) {
        Ok(())
    } else {
        Err(
            Violation {
                code: String::from_str("invalid_quest_status"),
                message: Some(
                    String::from_str(
                        "must be one of: planned, available, active, completed, failed, abandoned",
                    ),
                ),
            },
        )
    }
}

/// Accepts the allowed plot types and names the rule for the others.
pub fn validate_plot_type(value: &str) -> (r: Result<(), Violation>)
    ensures
        r is Ok <==> is_plot_type(value@),
        r matches Err(e) ==> e@ == ("invalid_plot_type"@, Some(plot_type_message())),
{
    if plot_type_allowed(value) {
        Ok(())
    } else {
        Err(
            Violation {
                code: String::from_str("invalid_plot_type"),
                message: Some(
                    String::from_str(
                        "must be one of: main, secondary, side, background",
                    ),
                ),
            },
        )
    }
}

/// Whether a text has between `min` and `max` characters.
pub open spec fn length_within(value: Seq<char>, min: nat, max: nat) -> bool {
    min <= value.len() <= max
}

/// Whether an optional text, where present, has between `min` and `max`
/// characters.
pub open spec fn opt_length_within(value: Option<String>, min: nat, max: nat) -> bool {
    match value {
        Some(v) => length_within(v@, min, max),
        None => true,
    }
}

/// Whether an optional text, where present, satisfies `allowed`.
pub open spec fn opt_allowed(value: Option<String>, allowed: spec_fn(Seq<char>) -> bool) -> bool {
    match value {
        Some(v) => allowed(v@),
        None => true,
    }
}

/// What a rule leaves of the violations found so far: the same where it
/// holds, one more violation of its field where it does not.
pub open spec fn checked(
    found: Map<Seq<char>, Seq<(Seq<char>, Option<Seq<char>>)>>,
    holds: bool,
    field: Seq<char>,
    code: Seq<char>,
    message: Seq<char>,
) -> Map<Seq<char>, Seq<(Seq<char>, Option<Seq<char>>)>> {
    if holds {
        found
    } else {
        with_error(found, field, (code, Some(message)))
    }
}

/// Decides [`length_within`].
pub fn has_length_within(value: &str, min: usize, max: usize) -> (r: bool)
    ensures
        r == length_within(value@, min as nat, max as nat),
{
    let n = value.unicode_len();
    min <= n && n <= max
}

/// Decides [`opt_length_within`].
pub fn opt_has_length_within(value: &Option<String>, min: usize, max: usize) -> (r: bool)
    ensures
        r == opt_length_within(*value, min as nat, max as nat),
{
    match value {
        Some(v) => has_length_within(v.as_str(), min, max),
        None => true,
    }
}

/// The outcome of a rule on lengths: the violation with the code `length`
/// and the message of the rule where it does not hold.
fn length_rule(holds: bool, message: &str) -> (r: Result<(), Violation>)
    ensures
        r is Ok <==> holds,
        r matches Err(v) ==> v@ == ("length"@, Some(message@)),
{
    if holds {
        Ok(())
    } else {
        Err(
            Violation { code: String::from_str("length"), message: Some(
                String::from_str(message),
            ) },
        )
    }
}

/// Records the violation of a rule of `field`, if its outcome is one.
fn note(
    errors: &mut validator::ValidationErrors,
    field: &'static str,
    outcome: Result<(), Violation>,
)
    requires
        nested_fields_of(*old(errors)) == Set::<Seq<char>>::empty(),
    ensures
        field_errors_of(*final(errors)) == (match outcome {
            Ok(_) => field_errors_of(*old(errors)),
            Err(v) => with_error(field_errors_of(*old(errors)), field@, v@),
        }),
        nested_fields_of(*final(errors)) == Set::<Seq<char>>::empty(),
        is_clear(field_errors_of(*final(errors))) == (outcome is Ok && is_clear(
            field_errors_of(*old(errors)),
        )),
{
    match outcome {
        Ok(()) => {},
        Err(violation) => {
            add_error(errors, field, violation);
            assert(field_errors_of(*errors).contains_key(field@));
        },
    }
}

/// The outcome of a validation: success where no rule was violated, the
/// violations otherwise.
fn conclude(errors: validator::ValidationErrors) -> (r: Result<(), validator::ValidationErrors>)
    requires
        nested_fields_of(errors) == Set::<Seq<char>>::empty(),
    ensures
        r is Ok <==> is_clear(field_errors_of(errors)),
        r matches Err(e) ==> e == errors,
{
    if holds_nothing(&errors) {
        Ok(())
    } else {
        Err(errors)
    }
}

/// What is needed to create a character.
#[derive(Debug)]
pub struct CreateCharacterInput {
    pub name: String,
    pub campaign_id: String,
    pub lineage: Option<String>,
    pub occupation: Option<String>,
    pub description: Option<String>,
    pub personality: Option<String>,
    pub motivations: Option<String>,
    pub secrets: Option<String>,
    pub voice_notes: Option<String>,
}

impl CreateCharacterInput {
    /// Whether the input meets every rule.
    pub open spec fn meets_rules(self) -> bool {
        &&& length_within(self.name@, 1, 200)
        &&& opt_length_within(self.lineage, 0, 200)
        &&& opt_length_within(self.occupation, 0, 200)
        &&& opt_length_within(self.description, 0, 50000)
        &&& opt_length_within(self.personality, 0, 50000)
        &&& opt_length_within(self.motivations, 0, 50000)
        &&& opt_length_within(self.secrets, 0, 50000)
        &&& opt_length_within(self.voice_notes, 0, 50000)
    }

    /// The violations of the rules, by field: the code and the message of each.
    pub open spec fn violations(self) -> Map<Seq<char>, Seq<(Seq<char>, Option<Seq<char>>)>> {
        let found = Map::<Seq<char>, Seq<(Seq<char>, Option<Seq<char>>)>>::empty();
        let found = checked(
            found,
            length_within(self.name@, 1, 200),
            "name"@,
            "length"@,
            "name must be 1-200 characters"@,
        );
        let found = checked(
            found,
            opt_length_within(self.lineage, 0, 200),
            "lineage"@,
            "length"@,
            "lineage too long (max 200 chars)"@,
        );
        let found = checked(
            found,
            opt_length_within(self.occupation, 0, 200),
            "occupation"@,
            "length"@,
            "occupation too long (max 200 chars)"@,
        );
        let found = checked(
            found,
            opt_length_within(self.description, 0, 50000),
            "description"@,
            "length"@,
            "description too long"@,
        );
        let found = checked(
            found,
            opt_length_within(self.personality, 0, 50000),
            "personality"@,
            "length"@,
            "personality too long"@,
        );
        let found = checked(
            found,
            opt_length_within(self.motivations, 0, 50000),
            "motivations"@,
            "length"@,
            "motivations too long"@,
        );
        let found = checked(
            found,
            opt_length_within(self.secrets, 0, 50000),
            "secrets"@,
            "length"@,
            "secrets too long"@,
        );
        let found = checked(
            found,
            opt_length_within(self.voice_notes, 0, 50000),
            "voice_notes"@,
            "length"@,
            "voice_notes too long"@,
        );
        found
    }

    /// Checks every rule; succeeds exactly where none is violated.
    pub fn validate(&self) -> (r: Result<(), validator::ValidationErrors>)
        ensures
            r is Ok <==> self.meets_rules(),
            r matches Err(e) ==> field_errors_of(e) == self.violations(),
            r matches Err(e) ==> nested_fields_of(e) == Set::<Seq<char>>::empty(),
    {
        let mut errors = no_errors();
        proof {
            assert(field_errors_of(errors) =~= Map::empty());
        }
        note(
            &mut errors,
            "name",
            length_rule(
                has_length_within(self.name.as_str(), 1, 200),
                "name must be 1-200 characters",
            ),
        );
        note(
            &mut errors,
            "lineage",
            length_rule(
                opt_has_length_within(&self.lineage, 0, 200),
                "lineage too long (max 200 chars)",
            ),
        );
        note(
            &mut errors,
            "occupation",
            length_rule(
                opt_has_length_within(&self.occupation, 0, 200),
                "occupation too long (max 200 chars)",
            ),
        );
        note(
            &mut errors,
            "description",
            length_rule(opt_has_length_within(&self.description, 0, 50000), "description too long"),
        );
        note(
            &mut errors,
            "personality",
            length_rule(opt_has_length_within(&self.personality, 0, 50000), "personality too long"),
        );
        note(
            &mut errors,
            "motivations",
            length_rule(opt_has_length_within(&self.motivations, 0, 50000), "motivations too long"),
        );
        note(
            &mut errors,
            "secrets",
            length_rule(opt_has_length_within(&self.secrets, 0, 50000), "secrets too long"),
        );
        note(
            &mut errors,
            "voice_notes",
            length_rule(opt_has_length_within(&self.voice_notes, 0, 50000), "voice_notes too long"),
        );
        conclude(errors)
    }
}

/// What is needed to create a location.
#[derive(Debug)]
pub struct CreateLocationInput {
    pub name: String,
    pub campaign_id: String,
    pub location_type: String,
    pub parent_id: Option<String>,
    pub description: Option<String>,
}

impl CreateLocationInput {
    /// Whether the input meets every rule.
    pub open spec fn meets_rules(self) -> bool {
        &&& length_within(self.name@, 1, 200)
        &&& is_location_type(self.location_type@)
        &&& opt_length_within(self.description, 0, 50000)
    }

    /// The violations of the rules, by field: the code and the message of each.
    pub open spec fn violations(self) -> Map<Seq<char>, Seq<(Seq<char>, Option<Seq<char>>)>> {
        let found = Map::<Seq<char>, Seq<(Seq<char>, Option<Seq<char>>)>>::empty();
        let found = checked(
            found,
            length_within(self.name@, 1, 200),
            "name"@,
            "length"@,
            "name must be 1-200 characters"@,
        );
        let found = checked(
            found,
            is_location_type(self.location_type@),
            "location_type"@,
            "invalid_location_type"@,
            location_type_message(),
        );
        let found = checked(
            found,
            opt_length_within(self.description, 0, 50000),
            "description"@,
            "length"@,
            "description too long"@,
        );
        found
    }

    /// Checks every rule; succeeds exactly where none is violated.
    pub fn validate(&self) -> (r: Result<(), validator::ValidationErrors>)
        ensures
            r is Ok <==> self.meets_rules(),
            r matches Err(e) ==> field_errors_of(e) == self.violations(),
            r matches Err(e) ==> nested_fields_of(e) == Set::<Seq<char>>::empty(),
    {
        let mut errors = no_errors();
        proof {
            assert(field_errors_of(errors) =~= Map::empty());
        }
        note(
            &mut errors,
            "name",
            length_rule(
                has_length_within(self.name.as_str(), 1, 200),
                "name must be 1-200 characters",
            ),
        );
        note(&mut errors, "location_type", validate_location_type(self.location_type.as_str()));
        note(
            &mut errors,
            "description",
            length_rule(opt_has_length_within(&self.description, 0, 50000), "description too long"),
        );
        conclude(errors)
    }
}

/// What is needed to create an organization.
#[derive(Debug)]
pub struct CreateOrganizationInput {
    pub name: String,
    pub campaign_id: String,
    pub org_type: String,
    pub description: Option<String>,
    pub goals: Option<String>,
    pub resources: Option<String>,
}

impl CreateOrganizationInput {
    /// Whether the input meets every rule.
    pub open spec fn meets_rules(self) -> bool {
        &&& length_within(self.name@, 1, 200)
        &&& is_org_type(self.org_type@)
        &&& opt_length_within(self.description, 0, 50000)
        &&& opt_length_within(self.goals, 0, 50000)
        &&& opt_length_within(self.resources, 0, 50000)
    }

    /// The violations of the rules, by field: the code and the message of each.
    pub open spec fn violations(self) -> Map<Seq<char>, Seq<(Seq<char>, Option<Seq<char>>)>> {
        let found = Map::<Seq<char>, Seq<(Seq<char>, Option<Seq<char>>)>>::empty();
        let found = checked(
            found,
            length_within(self.name@, 1, 200),
            "name"@,
            "length"@,
            "name must be 1-200 characters"@,
        );
        let found = checked(
            found,
            is_org_type(self.org_type@),
            "org_type"@,
            "invalid_org_type"@,
            org_type_message(),
        );
        let found = checked(
            found,
            opt_length_within(self.description, 0, 50000),
            "description"@,
            "length"@,
            "description too long"@,
        );
        let found = checked(
            found,
            opt_length_within(self.goals, 0, 50000),
            "goals"@,
            "length"@,
            "goals too long"@,
        );
        let found = checked(
            found,
            opt_length_within(self.resources, 0, 50000),
            "resources"@,
            "length"@,
            "resources too long"@,
        );
        found
    }

    /// Checks every rule; succeeds exactly where none is violated.
    pub fn validate(&self) -> (r: Result<(), validator::ValidationErrors>)
        ensures
            r is Ok <==> self.meets_rules(),
            r matches Err(e) ==> field_errors_of(e) == self.violations(),
            r matches Err(e) ==> nested_fields_of(e) == Set::<Seq<char>>::empty(),
    {
        let mut errors = no_errors();
        proof {
            assert(field_errors_of(errors) =~= Map::empty());
        }
        note(
            &mut errors,
            "name",
            length_rule(
                has_length_within(self.name.as_str(), 1, 200),
                "name must be 1-200 characters",
            ),
        );
        note(&mut errors, "org_type", validate_org_type(self.org_type.as_str()));
        note(
            &mut errors,
            "description",
            length_rule(opt_has_length_within(&self.description, 0, 50000), "description too long"),
        );
        note(
            &mut errors,
            "goals",
            length_rule(opt_has_length_within(&self.goals, 0, 50000), "goals too long"),
        );
        note(
            &mut errors,
            "resources",
            length_rule(opt_has_length_within(&self.resources, 0, 50000), "resources too long"),
        );
        conclude(errors)
    }
}

/// What is needed to create a quest.
#[derive(Debug)]
pub struct CreateQuestInput {
    pub name: String,
    pub campaign_id: String,
    pub plot_type: String,
    pub status: String,
    pub description: Option<String>,
    pub hook: Option<String>,
    pub objectives: Option<String>,
}

impl CreateQuestInput {
    /// Whether the input meets every rule.
    pub open spec fn meets_rules(self) -> bool {
        &&& length_within(self.name@, 1, 200)
        &&& is_plot_type(self.plot_type@)
        &&& is_quest_status(self.status@)
        &&& opt_length_within(self.description, 0, 50000)
        &&& opt_length_within(self.hook, 0, 50000)
        &&& opt_length_within(self.objectives, 0, 50000)
    }

    /// The violations of the rules, by field: the code and the message of each.
    pub open spec fn violations(self) -> Map<Seq<char>, Seq<(Seq<char>, Option<Seq<char>>)>> {
        let found = Map::<Seq<char>, Seq<(Seq<char>, Option<Seq<char>>)>>::empty();
        let found = checked(
            found,
            length_within(self.name@, 1, 200),
            "name"@,
            "length"@,
            "name must be 1-200 characters"@,
        );
        let found = checked(
            found,
            is_plot_type(self.plot_type@),
            "plot_type"@,
            "invalid_plot_type"@,
            plot_type_message(),
        );
        let found = checked(
            found,
            is_quest_status(self.status@),
            "status"@,
            "invalid_quest_status"@,
            quest_status_message(),
        );
        let found = checked(
            found,
            opt_length_within(self.description, 0, 50000),
            "description"@,
            "length"@,
            "description too long"@,
        );
        let found = checked(
            found,
            opt_length_within(self.hook, 0, 50000),
            "hook"@,
            "length"@,
            "hook too long"@,
        );
        let found = checked(
            found,
            opt_length_within(self.objectives, 0, 50000),
            "objectives"@,
            "length"@,
            "objectives too long"@,
        );
        found
    }

    /// Checks every rule; succeeds exactly where none is violated.
    pub fn validate(&self) -> (r: Result<(), validator::ValidationErrors>)
        ensures
            r is Ok <==> self.meets_rules(),
            r matches Err(e) ==> field_errors_of(e) == self.violations(),
            r matches Err(e) ==> nested_fields_of(e) == Set::<Seq<char>>::empty(),
    {
        let mut errors = no_errors();
        proof {
            assert(field_errors_of(errors) =~= Map::empty());
        }
        note(
            &mut errors,
            "name",
            length_rule(
                has_length_within(self.name.as_str(), 1, 200),
                "name must be 1-200 characters",
            ),
        );
        note(&mut errors, "plot_type", validate_plot_type(self.plot_type.as_str()));
        note(&mut errors, "status", validate_quest_status(self.status.as_str()));
        note(
            &mut errors,
            "description",
            length_rule(opt_has_length_within(&self.description, 0, 50000), "description too long"),
        );
        note(
            &mut errors,
            "hook",
            length_rule(opt_has_length_within(&self.hook, 0, 50000), "hook too long"),
        );
        note(
            &mut errors,
            "objectives",
            length_rule(opt_has_length_within(&self.objectives, 0, 50000), "objectives too long"),
        );
        conclude(errors)
    }
}

/// The changes asked of a character; a field left out stays as it is.
#[derive(Debug)]
pub struct UpdateCharacterInput {
    pub name: Option<String>,
    pub lineage: Option<String>,
    pub occupation: Option<String>,
    pub description: Option<String>,
    pub personality: Option<String>,
    pub motivations: Option<String>,
    pub secrets: Option<String>,
    pub voice_notes: Option<String>,
}

impl UpdateCharacterInput {
    /// Whether the input meets every rule.
    pub open spec fn meets_rules(self) -> bool {
        &&& opt_length_within(self.name, 1, 200)
        &&& opt_length_within(self.lineage, 0, 200)
        &&& opt_length_within(self.occupation, 0, 200)
        &&& opt_length_within(self.description, 0, 50000)
        &&& opt_length_within(self.personality, 0, 50000)
        &&& opt_length_within(self.motivations, 0, 50000)
        &&& opt_length_within(self.secrets, 0, 50000)
        &&& opt_length_within(self.voice_notes, 0, 50000)
    }

    /// The violations of the rules, by field: the code and the message of each.
    pub open spec fn violations(self) -> Map<Seq<char>, Seq<(Seq<char>, Option<Seq<char>>)>> {
        let found = Map::<Seq<char>, Seq<(Seq<char>, Option<Seq<char>>)>>::empty();
        let found = checked(
            found,
            opt_length_within(self.name, 1, 200),
            "name"@,
            "length"@,
            "name must be 1-200 characters"@,
        );
        let found = checked(
            found,
            opt_length_within(self.lineage, 0, 200),
            "lineage"@,
            "length"@,
            "lineage too long (max 200 chars)"@,
        );
        let found = checked(
            found,
            opt_length_within(self.occupation, 0, 200),
            "occupation"@,
            "length"@,
            "occupation too long (max 200 chars)"@,
        );
        let found = checked(
            found,
            opt_length_within(self.description, 0, 50000),
            "description"@,
            "length"@,
            "description too long"@,
        );
        let found = checked(
            found,
            opt_length_within(self.personality, 0, 50000),
            "personality"@,
            "length"@,
            "personality too long"@,
        );
        let found = checked(
            found,
            opt_length_within(self.motivations, 0, 50000),
            "motivations"@,
            "length"@,
            "motivations too long"@,
        );
        let found = checked(
            found,
            opt_length_within(self.secrets, 0, 50000),
            "secrets"@,
            "length"@,
            "secrets too long"@,
        );
        let found = checked(
            found,
            opt_length_within(self.voice_notes, 0, 50000),
            "voice_notes"@,
            "length"@,
            "voice_notes too long"@,
        );
        found
    }

    /// Checks every rule; succeeds exactly where none is violated.
    pub fn validate(&self) -> (r: Result<(), validator::ValidationErrors>)
        ensures
            r is Ok <==> self.meets_rules(),
            r matches Err(e) ==> field_errors_of(e) == self.violations(),
            r matches Err(e) ==> nested_fields_of(e) == Set::<Seq<char>>::empty(),
    {
        let mut errors = no_errors();
        proof {
            assert(field_errors_of(errors) =~= Map::empty());
        }
        note(
            &mut errors,
            "name",
            length_rule(opt_has_length_within(&self.name, 1, 200), "name must be 1-200 characters"),
        );
        note(
            &mut errors,
            "lineage",
            length_rule(
                opt_has_length_within(&self.lineage, 0, 200),
                "lineage too long (max 200 chars)",
            ),
        );
        note(
            &mut errors,
            "occupation",
            length_rule(
                opt_has_length_within(&self.occupation, 0, 200),
                "occupation too long (max 200 chars)",
            ),
        );
        note(
            &mut errors,
            "description",
            length_rule(opt_has_length_within(&self.description, 0, 50000), "description too long"),
        );
        note(
            &mut errors,
            "personality",
            length_rule(opt_has_length_within(&self.personality, 0, 50000), "personality too long"),
        );
        note(
            &mut errors,
            "motivations",
            length_rule(opt_has_length_within(&self.motivations, 0, 50000), "motivations too long"),
        );
        note(
            &mut errors,
            "secrets",
            length_rule(opt_has_length_within(&self.secrets, 0, 50000), "secrets too long"),
        );
        note(
            &mut errors,
            "voice_notes",
            length_rule(opt_has_length_within(&self.voice_notes, 0, 50000), "voice_notes too long"),
        );
        conclude(errors)
    }
}

/// The changes asked of a location; a field left out stays as it is.
#[derive(Debug)]
pub struct UpdateLocationInput {
    pub name: Option<String>,
    pub location_type: Option<String>,
    pub parent_id: Option<String>,
    pub description: Option<String>,
    pub detail_level: Option<i32>,
    pub gm_notes: Option<String>,
}

impl UpdateLocationInput {
    /// Whether the input meets every rule.
    pub open spec fn meets_rules(self) -> bool {
        &&& opt_length_within(self.name, 1, 200)
        &&& opt_length_within(self.description, 0, 50000)
        &&& opt_length_within(self.gm_notes, 0, 50000)
    }

    /// The violations of the rules, by field: the code and the message of each.
    pub open spec fn violations(self) -> Map<Seq<char>, Seq<(Seq<char>, Option<Seq<char>>)>> {
        let found = Map::<Seq<char>, Seq<(Seq<char>, Option<Seq<char>>)>>::empty();
        let found = checked(
            found,
            opt_length_within(self.name, 1, 200),
            "name"@,
            "length"@,
            "name must be 1-200 characters"@,
        );
        let found = checked(
            found,
            opt_length_within(self.description, 0, 50000),
            "description"@,
            "length"@,
            "description too long"@,
        );
        let found = checked(
            found,
            opt_length_within(self.gm_notes, 0, 50000),
            "gm_notes"@,
            "length"@,
            "gm_notes too long"@,
        );
        found
    }

    /// Checks every rule; succeeds exactly where none is violated.
    pub fn validate(&self) -> (r: Result<(), validator::ValidationErrors>)
        ensures
            r is Ok <==> self.meets_rules(),
            r matches Err(e) ==> field_errors_of(e) == self.violations(),
            r matches Err(e) ==> nested_fields_of(e) == Set::<Seq<char>>::empty(),
    {
        let mut errors = no_errors();
        proof {
            assert(field_errors_of(errors) =~= Map::empty());
        }
        note(
            &mut errors,
            "name",
            length_rule(opt_has_length_within(&self.name, 1, 200), "name must be 1-200 characters"),
        );
        note(
            &mut errors,
            "description",
            length_rule(opt_has_length_within(&self.description, 0, 50000), "description too long"),
        );
        note(
            &mut errors,
            "gm_notes",
            length_rule(opt_has_length_within(&self.gm_notes, 0, 50000), "gm_notes too long"),
        );
        conclude(errors)
    }

    /// Whether the location type, where one is given, is an allowed one.
    pub open spec fn location_type_fits(self) -> bool {
        &&& opt_allowed(self.location_type, |v: Seq<char>| is_location_type(v))
    }

    /// The violations that [`UpdateLocationInput::validate_location_type`] reports.
    pub open spec fn location_type_violations(
        self,
    ) -> Map<Seq<char>, Seq<(Seq<char>, Option<Seq<char>>)>> {
        let found = Map::<Seq<char>, Seq<(Seq<char>, Option<Seq<char>>)>>::empty();
        let found = checked(
            found,
            opt_allowed(self.location_type, |v: Seq<char>| is_location_type(v)),
            "location_type"@,
            "invalid_location_type"@,
            location_type_message(),
        );
        found
    }

    /// Checks the location type, where one is given.
    pub fn validate_location_type(&self) -> (r: Result<(), validator::ValidationErrors>)
        ensures
            r is Ok <==> self.location_type_fits(),
            r matches Err(e) ==> field_errors_of(e) == self.location_type_violations(),
            r matches Err(e) ==> nested_fields_of(e) == Set::<Seq<char>>::empty(),
    {
        let mut errors = no_errors();
        proof {
            assert(field_errors_of(errors) =~= Map::empty());
        }
        let location_type_outcome = match &self.location_type {
            Some(v) => validate_location_type(v.as_str()),
            None => Ok(()),
        };
        note(&mut errors, "location_type", location_type_outcome);
        conclude(errors)
    }
}

/// The changes asked of an organization; a field left out stays as it is.
#[derive(Debug)]
pub struct UpdateOrganizationInput {
    pub name: Option<String>,
    pub org_type: Option<String>,
    pub description: Option<String>,
    pub goals: Option<String>,
    pub resources: Option<String>,
    pub reputation: Option<String>,
    pub secrets: Option<String>,
}

impl UpdateOrganizationInput {
    /// Whether the input meets every rule.
    pub open spec fn meets_rules(self) -> bool {
        &&& opt_length_within(self.name, 1, 200)
        &&& opt_length_within(self.description, 0, 50000)
        &&& opt_length_within(self.goals, 0, 50000)
        &&& opt_length_within(self.resources, 0, 50000)
        &&& opt_length_within(self.reputation, 0, 50000)
        &&& opt_length_within(self.secrets, 0, 50000)
    }

    /// The violations of the rules, by field: the code and the message of each.
    pub open spec fn violations(self) -> Map<Seq<char>, Seq<(Seq<char>, Option<Seq<char>>)>> {
        let found = Map::<Seq<char>, Seq<(Seq<char>, Option<Seq<char>>)>>::empty();
        let found = checked(
            found,
            opt_length_within(self.name, 1, 200),
            "name"@,
            "length"@,
            "name must be 1-200 characters"@,
        );
        let found = checked(
            found,
            opt_length_within(self.description, 0, 50000),
            "description"@,
            "length"@,
            "description too long"@,
        );
        let found = checked(
            found,
            opt_length_within(self.goals, 0, 50000),
            "goals"@,
            "length"@,
            "goals too long"@,
        );
        let found = checked(
            found,
            opt_length_within(self.resources, 0, 50000),
            "resources"@,
            "length"@,
            "resources too long"@,
        );
        let found = checked(
            found,
            opt_length_within(self.reputation, 0, 50000),
            "reputation"@,
            "length"@,
            "reputation too long"@,
        );
        let found = checked(
            found,
            opt_length_within(self.secrets, 0, 50000),
            "secrets"@,
            "length"@,
            "secrets too long"@,
        );
        found
    }

    /// Checks every rule; succeeds exactly where none is violated.
    pub fn validate(&self) -> (r: Result<(), validator::ValidationErrors>)
        ensures
            r is Ok <==> self.meets_rules(),
            r matches Err(e) ==> field_errors_of(e) == self.violations(),
            r matches Err(e) ==> nested_fields_of(e) == Set::<Seq<char>>::empty(),
    {
        let mut errors = no_errors();
        proof {
            assert(field_errors_of(errors) =~= Map::empty());
        }
        note(
            &mut errors,
            "name",
            length_rule(opt_has_length_within(&self.name, 1, 200), "name must be 1-200 characters"),
        );
        note(
            &mut errors,
            "description",
            length_rule(opt_has_length_within(&self.description, 0, 50000), "description too long"),
        );
        note(
            &mut errors,
            "goals",
            length_rule(opt_has_length_within(&self.goals, 0, 50000), "goals too long"),
        );
        note(
            &mut errors,
            "resources",
            length_rule(opt_has_length_within(&self.resources, 0, 50000), "resources too long"),
        );
        note(
            &mut errors,
            "reputation",
            length_rule(opt_has_length_within(&self.reputation, 0, 50000), "reputation too long"),
        );
        note(
            &mut errors,
            "secrets",
            length_rule(opt_has_length_within(&self.secrets, 0, 50000), "secrets too long"),
        );
        conclude(errors)
    }

    /// Whether the organization type, where one is given, is an allowed one.
    pub open spec fn org_type_fits(self) -> bool {
        &&& opt_allowed(self.org_type, |v: Seq<char>| is_org_type(v))
    }

    /// The violations that [`UpdateOrganizationInput::validate_org_type`] reports.
    pub open spec fn org_type_violations(
        self,
    ) -> Map<Seq<char>, Seq<(Seq<char>, Option<Seq<char>>)>> {
        let found = Map::<Seq<char>, Seq<(Seq<char>, Option<Seq<char>>)>>::empty();
        let found = checked(
            found,
            opt_allowed(self.org_type, |v: Seq<char>| is_org_type(v)),
            "org_type"@,
            "invalid_org_type"@,
            org_type_message(),
        );
        found
    }

    /// Checks the organization type, where one is given.
    pub fn validate_org_type(&self) -> (r: Result<(), validator::ValidationErrors>)
        ensures
            r is Ok <==> self.org_type_fits(),
            r matches Err(e) ==> field_errors_of(e) == self.org_type_violations(),
            r matches Err(e) ==> nested_fields_of(e) == Set::<Seq<char>>::empty(),
    {
        let mut errors = no_errors();
        proof {
            assert(field_errors_of(errors) =~= Map::empty());
        }
        let org_type_outcome = match &self.org_type {
            Some(v) => validate_org_type(v.as_str()),
            None => Ok(()),
        };
        note(&mut errors, "org_type", org_type_outcome);
        conclude(errors)
    }
}

/// The changes asked of a quest; a field left out stays as it is.
#[derive(Debug)]
pub struct UpdateQuestInput {
    pub name: Option<String>,
    pub status: Option<String>,
    pub plot_type: Option<String>,
    pub description: Option<String>,
    pub hook: Option<String>,
    pub objectives: Option<String>,
    pub complications: Option<String>,
    pub resolution: Option<String>,
    pub reward: Option<String>,
}

impl UpdateQuestInput {
    /// Whether the input meets every rule.
    pub open spec fn meets_rules(self) -> bool {
        &&& opt_length_within(self.name, 1, 200)
        &&& opt_length_within(self.description, 0, 50000)
        &&& opt_length_within(self.hook, 0, 50000)
        &&& opt_length_within(self.objectives, 0, 50000)
        &&& opt_length_within(self.complications, 0, 50000)
        &&& opt_length_within(self.resolution, 0, 50000)
        &&& opt_length_within(self.reward, 0, 50000)
    }

    /// The violations of the rules, by field: the code and the message of each.
    pub open spec fn violations(self) -> Map<Seq<char>, Seq<(Seq<char>, Option<Seq<char>>)>> {
        let found = Map::<Seq<char>, Seq<(Seq<char>, Option<Seq<char>>)>>::empty();
        let found = checked(
            found,
            opt_length_within(self.name, 1, 200),
            "name"@,
            "length"@,
            "name must be 1-200 characters"@,
        );
        let found = checked(
            found,
            opt_length_within(self.description, 0, 50000),
            "description"@,
            "length"@,
            "description too long"@,
        );
        let found = checked(
            found,
            opt_length_within(self.hook, 0, 50000),
            "hook"@,
            "length"@,
            "hook too long"@,
        );
        let found = checked(
            found,
            opt_length_within(self.objectives, 0, 50000),
            "objectives"@,
            "length"@,
            "objectives too long"@,
        );
        let found = checked(
            found,
            opt_length_within(self.complications, 0, 50000),
            "complications"@,
            "length"@,
            "complications too long"@,
        );
        let found = checked(
            found,
            opt_length_within(self.resolution, 0, 50000),
            "resolution"@,
            "length"@,
            "resolution too long"@,
        );
        let found = checked(
            found,
            opt_length_within(self.reward, 0, 50000),
            "reward"@,
            "length"@,
            "reward too long"@,
        );
        found
    }

    /// Checks every rule; succeeds exactly where none is violated.
    pub fn validate(&self) -> (r: Result<(), validator::ValidationErrors>)
        ensures
            r is Ok <==> self.meets_rules(),
            r matches Err(e) ==> field_errors_of(e) == self.violations(),
            r matches Err(e) ==> nested_fields_of(e) == Set::<Seq<char>>::empty(),
    {
        let mut errors = no_errors();
        proof {
            assert(field_errors_of(errors) =~= Map::empty());
        }
        note(
            &mut errors,
            "name",
            length_rule(opt_has_length_within(&self.name, 1, 200), "name must be 1-200 characters"),
        );
        note(
            &mut errors,
            "description",
            length_rule(opt_has_length_within(&self.description, 0, 50000), "description too long"),
        );
        note(
            &mut errors,
            "hook",
            length_rule(opt_has_length_within(&self.hook, 0, 50000), "hook too long"),
        );
        note(
            &mut errors,
            "objectives",
            length_rule(opt_has_length_within(&self.objectives, 0, 50000), "objectives too long"),
        );
        note(
            &mut errors,
            "complications",
            length_rule(
                opt_has_length_within(&self.complications, 0, 50000),
                "complications too long",
            ),
        );
        note(
            &mut errors,
            "resolution",
            length_rule(opt_has_length_within(&self.resolution, 0, 50000), "resolution too long"),
        );
        note(
            &mut errors,
            "reward",
            length_rule(opt_has_length_within(&self.reward, 0, 50000), "reward too long"),
        );
        conclude(errors)
    }

    /// Whether the status and the plot type, where they are given, are allowed ones.
    pub open spec fn enums_fit(self) -> bool {
        &&& opt_allowed(self.status, |v: Seq<char>| is_quest_status(v))
        &&& opt_allowed(self.plot_type, |v: Seq<char>| is_plot_type(v))
    }

    /// The violations that [`UpdateQuestInput::validate_enums`] reports.
    pub open spec fn enum_violations(self) -> Map<Seq<char>, Seq<(Seq<char>, Option<Seq<char>>)>> {
        let found = Map::<Seq<char>, Seq<(Seq<char>, Option<Seq<char>>)>>::empty();
        let found = checked(
            found,
            opt_allowed(self.status, |v: Seq<char>| is_quest_status(v)),
            "status"@,
            "invalid_quest_status"@,
            quest_status_message(),
        );
        let found = checked(
            found,
            opt_allowed(self.plot_type, |v: Seq<char>| is_plot_type(v)),
            "plot_type"@,
            "invalid_plot_type"@,
            plot_type_message(),
        );
        found
    }

    /// Checks the status and the plot type, where they are given.
    pub fn validate_enums(&self) -> (r: Result<(), validator::ValidationErrors>)
        ensures
            r is Ok <==> self.enums_fit(),
            r matches Err(e) ==> field_errors_of(e) == self.enum_violations(),
            r matches Err(e) ==> nested_fields_of(e) == Set::<Seq<char>>::empty(),
    {
        let mut errors = no_errors();
        proof {
            assert(field_errors_of(errors) =~= Map::empty());
        }
        let status_outcome = match &self.status {
            Some(v) => validate_quest_status(v.as_str()),
            None => Ok(()),
        };
        note(&mut errors, "status", status_outcome);
        let plot_type_outcome = match &self.plot_type {
            Some(v) => validate_plot_type(v.as_str()),
            None => Ok(()),
        };
        note(&mut errors, "plot_type", plot_type_outcome);
        conclude(errors)
    }
}
} // verus!
