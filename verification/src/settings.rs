//! The typed, named configuration fields of a community and the uniform
//! protocol over them.
//!
//! Every tunable is a [`ConfigField`]: a stable name plus a value of one
//! of four kinds (decimal weight, channel reference, role reference,
//! unsigned integer).  Fields describe themselves — their selection and
//! setting keys, their input surface — so listing and updating them is
//! one generic code path.

use vstd::prelude::*;
use vstd::string::*;

use crate::text::{
    decimal_val, digits_val, parse_decimal, parse_decimal_ok, parse_u32, parse_u32_ok, parse_u64,
    parse_u64_ok,
};

verus! {

/// A field's value: one of the four supported kinds.
#[derive(Clone, Copy, Debug, PartialEq, Eq)]
pub enum FieldValue {
    /// An optional reference to a channel, by id.
    ChannelRef(Option<u64>),
    /// An optional reference to a role, by id.
    RoleRef(Option<u64>),
    /// An unsigned integer threshold.
    UInt(u32),
    /// A non-negative fixed-point weight (see [`crate::pressure::SCALE`]).
    Decimal(u64),
}

/// The kind of a field's value.
#[derive(Clone, Copy, Debug, PartialEq, Eq, Structural)]
pub enum FieldKind {
    ChannelRef,
    RoleRef,
    UInt,
    Decimal,
}

/// The kind a value belongs to.
pub open spec fn kind_of(v: FieldValue) -> FieldKind {
    match v {
        FieldValue::ChannelRef(_) => FieldKind::ChannelRef,
        FieldValue::RoleRef(_) => FieldKind::RoleRef,
        FieldValue::UInt(_) => FieldKind::UInt,
        FieldValue::Decimal(_) => FieldKind::Decimal,
    }
}

/// The decimal weight held by a value, zero for other kinds.
pub open spec fn decimal_of(v: FieldValue) -> u64 {
    match v {
        FieldValue::Decimal(x) => x,
        _ => 0,
    }
}

/// The integer held by a value, zero for other kinds.
pub open spec fn uint_of(v: FieldValue) -> u32 {
    match v {
        FieldValue::UInt(x) => x,
        _ => 0,
    }
}

/// The reference held by a value, none for scalar kinds.
pub open spec fn ref_of(v: FieldValue) -> Option<u64> {
    match v {
        FieldValue::ChannelRef(r) => r,
        FieldValue::RoleRef(r) => r,
        _ => None,
    }
}

/// Mathematical model of a configuration field.
#[verifier::ext_equal]
pub ghost struct FieldModel {
    pub name: Seq<char>,
    pub value: FieldValue,
}

/// The key a client echoes back to pick a field for editing.
pub open spec fn selection_key_model(name: Seq<char>) -> Seq<char> {
    "select_"@ + name
}

/// The key a client echoes back to submit a new value for a field.
pub open spec fn setting_key_model(name: Seq<char>) -> Seq<char> {
    "set_"@ + name
}

/// What a textual value parses to for a field currently holding `v`:
/// the new value, or nothing when the text is rejected.
///
/// The empty string resets an optional reference and is an error for
/// the scalar kinds.
pub open spec fn parsed_field_value(v: FieldValue, text: Seq<char>) -> Option<FieldValue> {
    match v {
        FieldValue::ChannelRef(_) => {
            if text.len() == 0 {
                Some(FieldValue::ChannelRef(None))
            } else if parse_u64_ok(text) {
                Some(FieldValue::ChannelRef(Some(digits_val(text) as u64)))
            } else {
                None
            }
        },
        FieldValue::RoleRef(_) => {
            if text.len() == 0 {
                Some(FieldValue::RoleRef(None))
            } else if parse_u64_ok(text) {
                Some(FieldValue::RoleRef(Some(digits_val(text) as u64)))
            } else {
                None
            }
        },
        FieldValue::UInt(_) => {
            if parse_u32_ok(text) {
                Some(FieldValue::UInt(digits_val(text) as u32))
            } else {
                None
            }
        },
        FieldValue::Decimal(_) => {
            if parse_decimal_ok(text) {
                Some(FieldValue::Decimal(decimal_val(text) as u64))
            } else {
                None
            }
        },
    }
}

/// What a successful or failed `set_value` leaves behind: the name is
/// untouched; on acceptance the parsed value is stored, on rejection
/// nothing changes.
pub open spec fn set_value_post(old_f: FieldModel, new_f: FieldModel, text: Seq<char>, ok: bool) -> bool {
    &&& new_f.name == old_f.name
    &&& match parsed_field_value(old_f.value, text) {
        Some(v) => ok && new_f.value == v,
        None => !ok && new_f.value == old_f.value,
    }
}

/// The error text a field reports for a rejected value, per kind.
pub open spec fn set_error_text(k: FieldKind) -> Seq<char> {
    match k {
        FieldKind::ChannelRef => "Not a valid id"@,
        FieldKind::RoleRef => "Not a valid id"@,
        FieldKind::UInt => "Not a valid whole number"@,
        FieldKind::Decimal => "Not a valid number"@,
    }
}

/// The input widget a field asks for in a slash command.
#[derive(Clone, Copy, Debug, PartialEq, Eq, Structural)]
pub enum CommandOptionKind {
    Text,
    Number,
    Channel,
    Role,
    Integer,
}

/// The widget for each field kind.
pub open spec fn slash_kind(k: FieldKind) -> CommandOptionKind {
    match k {
        FieldKind::ChannelRef => CommandOptionKind::Channel,
        FieldKind::RoleRef => CommandOptionKind::Role,
        FieldKind::UInt => CommandOptionKind::Integer,
        FieldKind::Decimal => CommandOptionKind::Number,
    }
}

/// The uniform capability set of a configuration field: it can name
/// itself, derive its correlation keys, and accept a textual value.
pub trait Configurable: Sized {
    /// The field's stable name.
    spec fn spec_name(&self) -> Seq<char>;

    /// The field's current value.
    spec fn spec_value(&self) -> FieldValue;

    /// The stable name, also used as the UI/RPC key stem.
    fn get_name(&self) -> (r: &String)
        ensures
            r@ == self.spec_name(),
    ;

    /// The display name (the stable name, undecorated).
    fn get_pretty_name(&self) -> (r: &String)
        ensures
            r@ == self.spec_name(),
    ;

    /// The key under which the field is offered for selection.
    fn get_selection_key(&self) -> (r: String)
        ensures
            r@ == selection_key_model(self.spec_name()),
    ;

    /// The key under which a new value for the field is submitted.
    fn get_setting_key(&self) -> (r: String)
        ensures
            r@ == setting_key_model(self.spec_name()),
    ;

    /// The key under which a reset of the field is submitted (the same
    /// key as for setting; an empty value is the reset signal).
    fn get_reset_key(&self) -> (r: String)
        ensures
            r@ == setting_key_model(self.spec_name()),
    ;

    /// Parse a textual value and store it.
    fn set_value(&mut self, new_value: String) -> (r: Result<(), String>)
        ensures
            set_value_post(
                FieldModel { name: old(self).spec_name(), value: old(self).spec_value() },
                FieldModel { name: final(self).spec_name(), value: final(self).spec_value() },
                new_value@,
                r is Ok,
            ),
    ;

    /// Store `value` if `key` is this field's setting key; report
    /// whether the key matched.
    fn setting_updated(&mut self, key: String, value: String) -> (r: Result<bool, String>)
        ensures
            final(self).spec_name() == old(self).spec_name(),
            key@ != setting_key_model(old(self).spec_name()) ==> final(self).spec_value() == old(
                self,
            ).spec_value() && r == Result::<bool, String>::Ok(false),
            key@ == setting_key_model(old(self).spec_name()) ==> {
                match parsed_field_value(old(self).spec_value(), value@) {
                    Some(v) => final(self).spec_value() == v && r is Ok && r->Ok_0 == true,
                    None => final(self).spec_value() == old(self).spec_value() && r is Err,
                }
            },
    ;

    /// The input widget the field asks for in a slash command.
    fn get_slash_command_type(&self) -> (r: CommandOptionKind)
        ensures
            r == slash_kind(kind_of(self.spec_value())),
    ;
}

/// A named, typed configuration value.
#[derive(Debug)]
pub struct ConfigField {
    name: String,
    value: FieldValue,
}

impl View for ConfigField {
    type V = FieldModel;

    closed spec fn view(&self) -> FieldModel {
        FieldModel { name: self.name@, value: self.value }
    }
}

impl ConfigField {
    /// A field with the given stable name and starting value.
    pub fn new(name: String, value: FieldValue) -> (r: Self)
        ensures
            r@ == (FieldModel { name: name@, value }),
    {
        ConfigField { name, value }
    }

    /// The field's current value.
    pub fn value(&self) -> (v: FieldValue)
        ensures
            v == self@.value,
    {
        self.value
    }
}

impl Configurable for ConfigField {
    open spec fn spec_name(&self) -> Seq<char> {
        self@.name
    }

    open spec fn spec_value(&self) -> FieldValue {
        self@.value
    }

    fn get_name(&self) -> (r: &String) {
        &self.name
    }

    fn get_pretty_name(&self) -> (r: &String) {
        &self.name
    }

    fn get_selection_key(&self) -> (r: String) {
        "select_".to_owned().concat(self.name.as_str())
    }

    fn get_setting_key(&self) -> (r: String) {
        "set_".to_owned().concat(self.name.as_str())
    }

    fn get_reset_key(&self) -> (r: String) {
        "set_".to_owned().concat(self.name.as_str())
    }

    fn set_value(&mut self, new_value: String) -> (r: Result<(), String>)
        ensures
            r is Err ==> r->Err_0@ == set_error_text(kind_of(old(self)@.value)),
    {
        match self.value {
            FieldValue::ChannelRef(_) => {
                if new_value.as_str().is_empty() {
                    self.value = FieldValue::ChannelRef(None);
                    Ok(())
                } else {
                    match parse_u64(new_value.as_str()) {
                        Some(id) => {
                            self.value = FieldValue::ChannelRef(Some(id));
                            Ok(())
                        },
                        None => Err("Not a valid id".to_owned()),
                    }
                }
            },
            FieldValue::RoleRef(_) => {
                if new_value.as_str().is_empty() {
                    self.value = FieldValue::RoleRef(None);
                    Ok(())
                } else {
                    match parse_u64(new_value.as_str()) {
                        Some(id) => {
                            self.value = FieldValue::RoleRef(Some(id));
                            Ok(())
                        },
                        None => Err("Not a valid id".to_owned()),
                    }
                }
            },
            FieldValue::UInt(_) => {
                match parse_u32(new_value.as_str()) {
                    Some(v) => {
                        self.value = FieldValue::UInt(v);
                        Ok(())
                    },
                    None => Err("Not a valid whole number".to_owned()),
                }
            },
            FieldValue::Decimal(_) => {
                match parse_decimal(new_value.as_str()) {
                    Some(v) => {
                        self.value = FieldValue::Decimal(v);
                        Ok(())
                    },
                    None => Err("Not a valid number".to_owned()),
                }
            },
        }
    }

    fn setting_updated(&mut self, key: String, value: String) -> (r: Result<bool, String>) {
        let my_key = self.get_setting_key();
        if my_key == key {
            match self.set_value(value) {
                Ok(()) => Ok(true),
                Err(e) => Err(e),
            }
        } else {
            Ok(false)
        }
    }

    fn get_slash_command_type(&self) -> (r: CommandOptionKind) {
        match self.value {
            FieldValue::ChannelRef(_) => CommandOptionKind::Channel,
            FieldValue::RoleRef(_) => CommandOptionKind::Role,
            FieldValue::UInt(_) => CommandOptionKind::Integer,
            FieldValue::Decimal(_) => CommandOptionKind::Number,
        }
    }
}


/// A live channel or role of the community, as handed in by the caller
/// for rendering enumerated choices.
pub struct RefEntry {
    pub id: u64,
    pub name: String,
}

/// Mathematical model of a [`RefEntry`].
#[verifier::ext_equal]
pub ghost struct RefEntryModel {
    pub id: u64,
    pub name: Seq<char>,
}

impl View for RefEntry {
    type V = RefEntryModel;

    open spec fn view(&self) -> RefEntryModel {
        RefEntryModel { id: self.id, name: self.name@ }
    }
}

/// One entry of the field-selection menu.
pub struct SelectionOption {
    pub label: String,
    pub description: String,
    pub value: String,
}

/// Mathematical model of a [`SelectionOption`].
#[verifier::ext_equal]
pub ghost struct SelectionOptionModel {
    pub label: Seq<char>,
    pub description: Seq<char>,
    pub value: Seq<char>,
}

impl View for SelectionOption {
    type V = SelectionOptionModel;

    open spec fn view(&self) -> SelectionOptionModel {
        SelectionOptionModel {
            label: self.label@,
            description: self.description@,
            value: self.value@,
        }
    }
}

/// The selection-menu entry a field offers for itself.
pub open spec fn selection_option_model(name: Seq<char>) -> SelectionOptionModel {
    SelectionOptionModel {
        label: name,
        description: "Set the value for "@ + name,
        value: selection_key_model(name),
    }
}

/// The input surface a picked field renders: a plain reset button for
/// scalar kinds, an enumerated choice list for reference kinds.
pub enum ConfigWindow {
    ResetButton { label: String, custom_id: String },
    SelectMenu { custom_id: String, options: Vec<SelectionOption> },
}

/// Mathematical model of a [`ConfigWindow`].
#[verifier::ext_equal]
pub ghost enum ConfigWindowModel {
    ResetButton { label: Seq<char>, custom_id: Seq<char> },
    SelectMenu { custom_id: Seq<char>, options: Seq<SelectionOptionModel> },
}

impl View for ConfigWindow {
    type V = ConfigWindowModel;

    open spec fn view(&self) -> ConfigWindowModel {
        match self {
            ConfigWindow::ResetButton { label, custom_id } => ConfigWindowModel::ResetButton {
                label: label@,
                custom_id: custom_id@,
            },
            ConfigWindow::SelectMenu { custom_id, options } => ConfigWindowModel::SelectMenu {
                custom_id: custom_id@,
                options: options@.map_values(|o: SelectionOption| o@),
            },
        }
    }
}

/// The choice entry shown for one live channel.
pub open spec fn channel_choice_model(e: RefEntryModel) -> SelectionOptionModel {
    SelectionOptionModel {
        label: e.name,
        description: "Pick "@ + e.name,
        value: crate::text::dec_str(e.id as int),
    }
}

/// The choice entry shown for one live role.
pub open spec fn role_choice_model(e: RefEntryModel) -> SelectionOptionModel {
    SelectionOptionModel {
        label: e.name,
        description: "Choose "@ + e.name,
        value: crate::text::dec_str(e.id as int),
    }
}

/// The window a field renders, as a function of its model and the live
/// channels and roles.
pub open spec fn config_window_model(
    f: FieldModel,
    roles: Seq<RefEntryModel>,
    channels: Seq<RefEntryModel>,
) -> ConfigWindowModel {
    match kind_of(f.value) {
        FieldKind::ChannelRef => ConfigWindowModel::SelectMenu {
            custom_id: setting_key_model(f.name),
            options: channels.map_values(|e: RefEntryModel| channel_choice_model(e)),
        },
        FieldKind::RoleRef => ConfigWindowModel::SelectMenu {
            custom_id: setting_key_model(f.name),
            options: roles.map_values(|e: RefEntryModel| role_choice_model(e)),
        },
        _ => ConfigWindowModel::ResetButton {
            label: "Reset "@ + f.name,
            custom_id: f.name,
        },
    }
}

impl ConfigField {
    /// The selection-menu entry offering this field.
    pub fn add_selection_option(&self) -> (r: SelectionOption)
        ensures
            r@ == selection_option_model(self@.name),
    {
        SelectionOption {
            label: self.name.clone(),
            description: "Set the value for ".to_owned().concat(self.name.as_str()),
            value: self.get_selection_key(),
        }
    }

    /// The input surface this field renders once picked: reference
    /// kinds enumerate the live channels or roles, scalar kinds offer a
    /// reset button.
    pub fn make_config_window(&self, roles: &Vec<RefEntry>, channels: &Vec<RefEntry>) -> (r:
        ConfigWindow)
        ensures
            r@ == config_window_model(
                self@,
                roles@.map_values(|e: RefEntry| e@),
                channels@.map_values(|e: RefEntry| e@),
            ),
    {
        match self.value {
            FieldValue::ChannelRef(_) => {
                let mut options: Vec<SelectionOption> = Vec::new();
                let ghost chans = channels@.map_values(|e: RefEntry| e@);
                let mut i: usize = 0;
                while i < channels.len()
                    invariant
                        0 <= i <= channels.len(),
                        chans == channels@.map_values(|e: RefEntry| e@),
                        options@.len() == i,
                        forall|j: int|
                            0 <= j < i ==> (#[trigger] options@[j])@ == channel_choice_model(
                                chans[j],
                            ),
                    decreases channels.len() - i,
                {
                    let e = &channels[i];
                    let opt = SelectionOption {
                        label: e.name.clone(),
                        description: "Pick ".to_owned().concat(e.name.as_str()),
                        value: crate::text::format_u64(e.id),
                    };
                    proof {
                        assert(e@ == chans[i as int]);
                        assert(opt@ == channel_choice_model(chans[i as int]));
                    }
                    options.push(opt);
                    i = i + 1;
                }
                let r = ConfigWindow::SelectMenu { custom_id: self.get_setting_key(), options };
                proof {
                    assert(options@.map_values(|o: SelectionOption| o@) =~= chans.map_values(
                        |e: RefEntryModel| channel_choice_model(e),
                    ));
                    assert(r@ =~~= config_window_model(
                        self@,
                        roles@.map_values(|e: RefEntry| e@),
                        chans,
                    ));
                }
                r
            },
            FieldValue::RoleRef(_) => {
                let mut options: Vec<SelectionOption> = Vec::new();
                let ghost rolemods = roles@.map_values(|e: RefEntry| e@);
                let mut i: usize = 0;
                while i < roles.len()
                    invariant
                        0 <= i <= roles.len(),
                        rolemods == roles@.map_values(|e: RefEntry| e@),
                        options@.len() == i,
                        forall|j: int|
                            0 <= j < i ==> (#[trigger] options@[j])@ == role_choice_model(
                                rolemods[j],
                            ),
                    decreases roles.len() - i,
                {
                    let e = &roles[i];
                    let opt = SelectionOption {
                        label: e.name.clone(),
                        description: "Choose ".to_owned().concat(e.name.as_str()),
                        value: crate::text::format_u64(e.id),
                    };
                    proof {
                        assert(e@ == rolemods[i as int]);
                        assert(opt@ == role_choice_model(rolemods[i as int]));
                    }
                    options.push(opt);
                    i = i + 1;
                }
                let r = ConfigWindow::SelectMenu { custom_id: self.get_setting_key(), options };
                proof {
                    assert(options@.map_values(|o: SelectionOption| o@) =~= rolemods.map_values(
                        |e: RefEntryModel| role_choice_model(e),
                    ));
                    assert(r@ =~~= config_window_model(
                        self@,
                        rolemods,
                        channels@.map_values(|e: RefEntry| e@),
                    ));
                }
                r
            },
            _ => {
                ConfigWindow::ResetButton {
                    label: "Reset ".to_owned().concat(self.name.as_str()),
                    custom_id: self.name.clone(),
                }
            },
        }
    }
}


/// One slash-command subcommand a field contributes: pick the field by
/// name, type its value into one option.
pub struct SlashSubcommand {
    pub name: String,
    pub description: String,
    pub value_name: String,
    pub value_description: String,
    pub value_kind: CommandOptionKind,
}

/// Mathematical model of a [`SlashSubcommand`].
#[verifier::ext_equal]
pub ghost struct SlashSubcommandModel {
    pub name: Seq<char>,
    pub description: Seq<char>,
    pub value_name: Seq<char>,
    pub value_description: Seq<char>,
    pub value_kind: CommandOptionKind,
}

impl View for SlashSubcommand {
    type V = SlashSubcommandModel;

    open spec fn view(&self) -> SlashSubcommandModel {
        SlashSubcommandModel {
            name: self.name@,
            description: self.description@,
            value_name: self.value_name@,
            value_description: self.value_description@,
            value_kind: self.value_kind,
        }
    }
}

/// The subcommand a field offers for itself.
pub open spec fn slash_subcommand_model(f: FieldModel) -> SlashSubcommandModel {
    SlashSubcommandModel {
        name: f.name,
        description: "Set the value for "@ + f.name,
        value_name: "value"@,
        value_description: "Value to set (leave empty to reset to default)"@,
        value_kind: slash_kind(kind_of(f.value)),
    }
}

impl ConfigField {
    /// The slash-command subcommand offering this field.
    pub fn add_slash_command_subcommand(&self) -> (r: SlashSubcommand)
        ensures
            r@ == slash_subcommand_model(self@),
    {
        SlashSubcommand {
            name: self.name.clone(),
            description: "Set the value for ".to_owned().concat(self.name.as_str()),
            value_name: "value".to_owned(),
            value_description: "Value to set (leave empty to reset to default)".to_owned(),
            value_kind: self.get_slash_command_type(),
        }
    }

    /// An equal copy of the field.
    pub fn duplicate(&self) -> (r: Self)
        ensures
            r@ == self@,
    {
        ConfigField { name: self.name.clone(), value: self.value }
    }
}

/// How many fields a community's registry holds.
pub const FIELD_COUNT: usize = 17;

pub const IDX_MODERATION_CHANNEL: usize = 0;

pub const IDX_RAID_CONTAINMENT_CHANNEL: usize = 1;

pub const IDX_SILENCE_CONTAINMENT_CHANNEL: usize = 2;

pub const IDX_LOG_CHANNEL: usize = 3;

pub const IDX_MEMBER_ROLE: usize = 4;

pub const IDX_SILENCE_ROLE: usize = 5;

pub const IDX_NEW_ROLE: usize = 6;

pub const IDX_RAID_TRIGGER_TIMESPAN: usize = 7;

pub const IDX_RAID_TRIGGER_NEW_USER_LIMIT: usize = 8;

pub const IDX_RAID_AUTOEXPIRATION: usize = 9;

pub const IDX_MAX_PRESSURE: usize = 10;

pub const IDX_MESSAGE_PRESSURE: usize = 11;

pub const IDX_EMBED_PRESSURE: usize = 12;

pub const IDX_CHARACTER_PRESSURE: usize = 13;

pub const IDX_NEWLINE_PRESSURE: usize = 14;

pub const IDX_UNIQUE_PING_PRESSURE: usize = 15;

pub const IDX_PRESSURE_DECAY_PER_SECOND: usize = 16;

/// Mathematical model of a community's configuration.
#[verifier::ext_equal]
pub ghost struct ConfigModel {
    pub guild_id: u64,
    pub fields: Seq<FieldModel>,
}

/// The compiled-in default fields, in registry order.
pub open spec fn default_fields() -> Seq<FieldModel> {
    seq![
        FieldModel { name: "moderation_channel"@, value: FieldValue::ChannelRef(None) },
        FieldModel { name: "raid_containment_channel"@, value: FieldValue::ChannelRef(None) },
        FieldModel { name: "silence_containment_channel"@, value: FieldValue::ChannelRef(None) },
        FieldModel { name: "log_channel"@, value: FieldValue::ChannelRef(None) },
        FieldModel { name: "member_role"@, value: FieldValue::RoleRef(None) },
        FieldModel { name: "silence_role"@, value: FieldValue::RoleRef(None) },
        FieldModel { name: "new_role"@, value: FieldValue::RoleRef(None) },
        FieldModel { name: "raid_trigger_timespan"@, value: FieldValue::UInt(90) },
        FieldModel { name: "raid_trigger_new_user_limit"@, value: FieldValue::UInt(5) },
        FieldModel { name: "raid_autoexpiration"@, value: FieldValue::UInt(600) },
        FieldModel { name: "max_pressure"@, value: FieldValue::Decimal(6000000) },
        FieldModel { name: "message_pressure"@, value: FieldValue::Decimal(1000000) },
        FieldModel { name: "embed_pressure"@, value: FieldValue::Decimal(830000) },
        FieldModel { name: "character_pressure"@, value: FieldValue::Decimal(625) },
        FieldModel { name: "newline_pressure"@, value: FieldValue::Decimal(71400) },
        FieldModel { name: "unique_ping_pressure"@, value: FieldValue::Decimal(250000) },
        FieldModel { name: "pressure_decay_per_second"@, value: FieldValue::Decimal(800000) },
    ]
}

/// Well-formedness of a configuration: all the expected fields stand at
/// their expected places, each of its expected kind.
pub open spec fn config_wf(c: ConfigModel) -> bool {
    &&& c.fields.len() == 17
    &&& c.fields[0].name == "moderation_channel"@ && c.fields[0].value is ChannelRef
    &&& c.fields[1].name == "raid_containment_channel"@ && c.fields[1].value is ChannelRef
    &&& c.fields[2].name == "silence_containment_channel"@ && c.fields[2].value is ChannelRef
    &&& c.fields[3].name == "log_channel"@ && c.fields[3].value is ChannelRef
    &&& c.fields[4].name == "member_role"@ && c.fields[4].value is RoleRef
    &&& c.fields[5].name == "silence_role"@ && c.fields[5].value is RoleRef
    &&& c.fields[6].name == "new_role"@ && c.fields[6].value is RoleRef
    &&& c.fields[7].name == "raid_trigger_timespan"@ && c.fields[7].value is UInt
    &&& c.fields[8].name == "raid_trigger_new_user_limit"@ && c.fields[8].value is UInt
    &&& c.fields[9].name == "raid_autoexpiration"@ && c.fields[9].value is UInt
    &&& c.fields[10].name == "max_pressure"@ && c.fields[10].value is Decimal
    &&& c.fields[11].name == "message_pressure"@ && c.fields[11].value is Decimal
    &&& c.fields[12].name == "embed_pressure"@ && c.fields[12].value is Decimal
    &&& c.fields[13].name == "character_pressure"@ && c.fields[13].value is Decimal
    &&& c.fields[14].name == "newline_pressure"@ && c.fields[14].value is Decimal
    &&& c.fields[15].name == "unique_ping_pressure"@ && c.fields[15].value is Decimal
    &&& c.fields[16].name == "pressure_decay_per_second"@ && c.fields[16].value is Decimal
}

/// The configuration of one community: its identifier and the registry
/// of its fields.
#[derive(Debug)]
pub struct GuildConfig {
    pub guild_id: u64,
    fields: Vec<ConfigField>,
}

impl View for GuildConfig {
    type V = ConfigModel;

    closed spec fn view(&self) -> ConfigModel {
        ConfigModel { guild_id: self.guild_id, fields: self.fields@.map_values(|f: ConfigField| f@) }
    }
}

impl GuildConfig {
    /// Well-formedness: the registry holds exactly the expected fields.
    pub open spec fn wf(&self) -> bool {
        config_wf(self@)
    }

    /// A fresh configuration with the compiled-in defaults.
    pub fn new(guild_id: u64) -> (r: Self)
        ensures
            r@.guild_id == guild_id,
            r@.fields =~= default_fields(),
            r.wf(),
    {
        let mut fields: Vec<ConfigField> = Vec::new();
        fields.push(ConfigField::new("moderation_channel".to_owned(), FieldValue::ChannelRef(None)));
        fields.push(ConfigField::new("raid_containment_channel".to_owned(), FieldValue::ChannelRef(None)));
        fields.push(ConfigField::new("silence_containment_channel".to_owned(), FieldValue::ChannelRef(None)));
        fields.push(ConfigField::new("log_channel".to_owned(), FieldValue::ChannelRef(None)));
        fields.push(ConfigField::new("member_role".to_owned(), FieldValue::RoleRef(None)));
        fields.push(ConfigField::new("silence_role".to_owned(), FieldValue::RoleRef(None)));
        fields.push(ConfigField::new("new_role".to_owned(), FieldValue::RoleRef(None)));
        fields.push(ConfigField::new("raid_trigger_timespan".to_owned(), FieldValue::UInt(90)));
        fields.push(ConfigField::new("raid_trigger_new_user_limit".to_owned(), FieldValue::UInt(5)));
        fields.push(ConfigField::new("raid_autoexpiration".to_owned(), FieldValue::UInt(600)));
        fields.push(ConfigField::new("max_pressure".to_owned(), FieldValue::Decimal(6000000)));
        fields.push(ConfigField::new("message_pressure".to_owned(), FieldValue::Decimal(1000000)));
        fields.push(ConfigField::new("embed_pressure".to_owned(), FieldValue::Decimal(830000)));
        fields.push(ConfigField::new("character_pressure".to_owned(), FieldValue::Decimal(625)));
        fields.push(ConfigField::new("newline_pressure".to_owned(), FieldValue::Decimal(71400)));
        fields.push(ConfigField::new("unique_ping_pressure".to_owned(), FieldValue::Decimal(250000)));
        fields.push(ConfigField::new("pressure_decay_per_second".to_owned(), FieldValue::Decimal(800000)));
        let r = GuildConfig { guild_id, fields };
        proof {
            assert(r@.fields =~= default_fields());
        }
        r
    }

    /// The community this configuration belongs to.
    pub fn get_guild_id(&self) -> (id: u64)
        ensures
            id == self@.guild_id,
    {
        self.guild_id
    }

    /// An equal copy of the configuration.
    pub fn duplicate(&self) -> (r: Self)
        ensures
            r@ == self@,
    {
        let mut fields: Vec<ConfigField> = Vec::new();
        let mut i: usize = 0;
        while i < self.fields.len()
            invariant
                0 <= i <= self.fields.len(),
                fields@.len() == i,
                forall|j: int|
                    0 <= j < i ==> (#[trigger] fields@[j])@ == self.fields@[j]@,
            decreases self.fields.len() - i,
        {
            let f = self.fields[i].duplicate();
            fields.push(f);
            i = i + 1;
        }
        let r = GuildConfig { guild_id: self.guild_id, fields };
        proof {
            assert(r@.fields =~= self@.fields);
        }
        r
    }

    /// The fields of the registry, in order.
    pub fn get_configurable_fields(&self) -> (r: &Vec<ConfigField>)
        ensures
            r@.len() == self@.fields.len(),
            forall|j: int| 0 <= j < r@.len() ==> (#[trigger] r@[j])@ == self@.fields[j],
    {
        &self.fields
    }

    /// One selection-menu entry per field, in registry order.
    pub fn list_selection_options(&self) -> (r: Vec<SelectionOption>)
        ensures
            r@.len() == self@.fields.len(),
            forall|j: int|
                0 <= j < r@.len() ==> (#[trigger] r@[j])@ == selection_option_model(
                    self@.fields[j].name,
                ),
    {
        let mut options: Vec<SelectionOption> = Vec::new();
        let mut i: usize = 0;
        while i < self.fields.len()
            invariant
                0 <= i <= self.fields.len(),
                options@.len() == i,
                forall|j: int|
                    0 <= j < i ==> (#[trigger] options@[j])@ == selection_option_model(
                        self.fields@[j]@.name,
                    ),
            decreases self.fields.len() - i,
        {
            let opt = self.fields[i].add_selection_option();
            options.push(opt);
            i = i + 1;
        }
        options
    }

    /// Look a field up by its selection key: the first field whose key
    /// matches, if any.
    pub fn find_by_selection_key(&self, key: &String) -> (r: Option<usize>)
        ensures
            match r {
                Some(i) => {
                    &&& i < self@.fields.len()
                    &&& selection_key_model(self@.fields[i as int].name) == key@
                    &&& forall|j: int|
                        0 <= j < i ==> selection_key_model(#[trigger] self@.fields[j].name) != key@
                },
                None => forall|j: int|
                    0 <= j < self@.fields.len() ==> selection_key_model(
                        #[trigger] self@.fields[j].name,
                    ) != key@,
            },
    {
        let mut i: usize = 0;
        while i < self.fields.len()
            invariant
                0 <= i <= self.fields.len(),
                forall|j: int|
                    0 <= j < i ==> selection_key_model(#[trigger] self.fields@[j]@.name) != key@,
            decreases self.fields.len() - i,
        {
            let k = self.fields[i].get_selection_key();
            if k == *key {
                return Some(i);
            }
            i = i + 1;
        }
        None
    }

    /// Hand `value` to the first field whose setting key is `key`.
    ///
    /// Reports which field took it and whether it was accepted; an
    /// unknown key changes nothing.
    pub fn set_by_setting_key(&mut self, key: &String, value: String) -> (r: SettingOutcome)
        ensures
            final(self)@.guild_id == old(self)@.guild_id,
            final(self)@.fields.len() == old(self)@.fields.len(),
            match r {
                SettingOutcome::Updated(i) => {
                    &&& i < old(self)@.fields.len()
                    &&& setting_key_model(old(self)@.fields[i as int].name) == key@
                    &&& forall|j: int|
                        0 <= j < i ==> setting_key_model(#[trigger] old(self)@.fields[j].name)
                            != key@
                    &&& parsed_field_value(old(self)@.fields[i as int].value, value@) is Some
                    &&& final(self)@.fields =~= old(self)@.fields.update(
                        i as int,
                        FieldModel {
                            name: old(self)@.fields[i as int].name,
                            value: parsed_field_value(
                                old(self)@.fields[i as int].value,
                                value@,
                            )->0,
                        },
                    )
                },
                SettingOutcome::Rejected(i, e) => {
                    &&& i < old(self)@.fields.len()
                    &&& e@ == set_error_text(kind_of(old(self)@.fields[i as int].value))
                    &&& setting_key_model(old(self)@.fields[i as int].name) == key@
                    &&& forall|j: int|
                        0 <= j < i ==> setting_key_model(#[trigger] old(self)@.fields[j].name)
                            != key@
                    &&& parsed_field_value(old(self)@.fields[i as int].value, value@) is None
                    &&& final(self)@ == old(self)@
                },
                SettingOutcome::UnknownKey => {
                    &&& forall|j: int|
                        0 <= j < old(self)@.fields.len() ==> setting_key_model(
                            #[trigger] old(self)@.fields[j].name,
                        ) != key@
                    &&& final(self)@ == old(self)@
                },
            },
    {
        let ghost fs0 = self@.fields;
        let mut i: usize = 0;
        while i < self.fields.len()
            invariant
                0 <= i <= self.fields.len(),
                fs0 == old(self)@.fields,
                self@.fields == old(self)@.fields,
                self@.guild_id == old(self)@.guild_id,
                forall|j: int|
                    0 <= j < i ==> setting_key_model(#[trigger] self.fields@[j]@.name) != key@,
            decreases self.fields.len() - i,
        {
            let k = self.fields[i].get_setting_key();
            if k == *key {
                let fref = &mut self.fields[i];
                let res = fref.set_value(value);
                proof {
                    assert(self@.fields =~= self.fields@.map_values(|f: ConfigField| f@));
                }
                match res {
                    Ok(()) => {
                        proof {
                            assert(self@.fields =~= fs0.update(
                                i as int,
                                FieldModel {
                                    name: fs0[i as int].name,
                                    value: parsed_field_value(fs0[i as int].value, value@)->0,
                                },
                            ));
                        }
                        return SettingOutcome::Updated(i);
                    },
                    Err(e) => {
                        proof {
                            assert(self@.fields =~= fs0);
                        }
                        return SettingOutcome::Rejected(i, e);
                    },
                }
            }
            i = i + 1;
        }
        SettingOutcome::UnknownKey
    }
}

impl GuildConfig {
    /// Hand `value` to the first field with the given name.
    ///
    /// Reports which field took it and whether it was accepted; an
    /// unknown name changes nothing.
    pub fn set_by_name(&mut self, name: &String, value: String) -> (r: SettingOutcome)
        ensures
            final(self)@.guild_id == old(self)@.guild_id,
            final(self)@.fields.len() == old(self)@.fields.len(),
            match r {
                SettingOutcome::Updated(i) => {
                    &&& i < old(self)@.fields.len()
                    &&& old(self)@.fields[i as int].name == name@
                    &&& forall|j: int|
                        0 <= j < i ==> (#[trigger] old(self)@.fields[j]).name != name@
                    &&& parsed_field_value(old(self)@.fields[i as int].value, value@) is Some
                    &&& final(self)@.fields =~= old(self)@.fields.update(
                        i as int,
                        FieldModel {
                            name: old(self)@.fields[i as int].name,
                            value: parsed_field_value(
                                old(self)@.fields[i as int].value,
                                value@,
                            )->0,
                        },
                    )
                },
                SettingOutcome::Rejected(i, e) => {
                    &&& i < old(self)@.fields.len()
                    &&& old(self)@.fields[i as int].name == name@
                    &&& forall|j: int|
                        0 <= j < i ==> (#[trigger] old(self)@.fields[j]).name != name@
                    &&& parsed_field_value(old(self)@.fields[i as int].value, value@) is None
                    &&& e@ == set_error_text(kind_of(old(self)@.fields[i as int].value))
                    &&& final(self)@ == old(self)@
                },
                SettingOutcome::UnknownKey => {
                    &&& forall|j: int|
                        0 <= j < old(self)@.fields.len() ==> (#[trigger] old(
                            self,
                        )@.fields[j]).name != name@
                    &&& final(self)@ == old(self)@
                },
            },
    {
        let ghost fs0 = self@.fields;
        let mut i: usize = 0;
        while i < self.fields.len()
            invariant
                0 <= i <= self.fields.len(),
                fs0 == old(self)@.fields,
                self@.fields == old(self)@.fields,
                self@.guild_id == old(self)@.guild_id,
                forall|j: int| 0 <= j < i ==> (#[trigger] self.fields@[j]@).name != name@,
            decreases self.fields.len() - i,
        {
            let matches_name = {
                let k = self.fields[i].get_name();
                *k == *name
            };
            if matches_name {
                let fref = &mut self.fields[i];
                let res = fref.set_value(value);
                proof {
                    assert(self@.fields =~= self.fields@.map_values(|f: ConfigField| f@));
                }
                match res {
                    Ok(()) => {
                        proof {
                            assert(self@.fields =~= fs0.update(
                                i as int,
                                FieldModel {
                                    name: fs0[i as int].name,
                                    value: parsed_field_value(fs0[i as int].value, value@)->0,
                                },
                            ));
                        }
                        return SettingOutcome::Updated(i);
                    },
                    Err(e) => {
                        proof {
                            assert(self@.fields =~= fs0);
                        }
                        return SettingOutcome::Rejected(i, e);
                    },
                }
            }
            i = i + 1;
        }
        SettingOutcome::UnknownKey
    }
}

/// The first index of the sequence satisfying `p`, or the sequence
/// length when none does.
pub open spec fn first_index<A>(s: Seq<A>, p: spec_fn(A) -> bool) -> int
    decreases s.len(),
{
    if s.len() == 0 {
        0
    } else if p(s[0]) {
        0
    } else {
        1 + first_index(s.drop_first(), p)
    }
}

pub proof fn lemma_first_index_range<A>(s: Seq<A>, p: spec_fn(A) -> bool)
    ensures
        0 <= first_index(s, p) <= s.len(),
        first_index(s, p) < s.len() ==> p(s[first_index(s, p)]),
        forall|j: int| 0 <= j < first_index(s, p) ==> !p(#[trigger] s[j]),
    decreases s.len(),
{
    if s.len() > 0 && !p(s[0]) {
        lemma_first_index_range(s.drop_first(), p);
        assert(first_index(s, p) == 1 + first_index(s.drop_first(), p));
        if first_index(s, p) < s.len() {
            assert(s.drop_first()[first_index(s.drop_first(), p)] == s[first_index(s, p)]);
        }
        assert(forall|j: int|
            1 <= j < first_index(s, p) ==> s.drop_first()[j - 1] == #[trigger] s[j]);
    }
}

pub proof fn lemma_first_index_from<A>(s: Seq<A>, p: spec_fn(A) -> bool, i: int)
    requires
        0 <= i <= s.len(),
        forall|j: int| 0 <= j < i ==> !p(#[trigger] s[j]),
    ensures
        first_index(s, p) >= i,
        i < s.len() && p(s[i]) ==> first_index(s, p) == i,
    decreases i,
{
    lemma_first_index_range(s, p);
    if i > 0 {
        assert(!p(s[0]));
        assert(first_index(s, p) == 1 + first_index(s.drop_first(), p));
        assert(forall|j: int|
            0 <= j < i - 1 ==> #[trigger] s.drop_first()[j] == s[j + 1] && !p(s[j + 1]));
        lemma_first_index_from(s.drop_first(), p, i - 1);
        assert(i - 1 < s.drop_first().len() ==> s.drop_first()[i - 1] == s[i]);
    }
}

/// The outcome of submitting a value under a setting key.
pub enum SettingOutcome {
    /// The named field accepted the value.
    Updated(usize),
    /// The named field rejected the value; nothing changed.
    Rejected(usize, String),
    /// No field answers to the key; nothing changed.
    UnknownKey,
}


/// The scoring weights a configuration currently holds.
pub open spec fn spec_weights(c: ConfigModel) -> crate::pressure::PressureWeights {
    crate::pressure::PressureWeights {
        message: decimal_of(c.fields[IDX_MESSAGE_PRESSURE as int].value),
        embed: decimal_of(c.fields[IDX_EMBED_PRESSURE as int].value),
        character: decimal_of(c.fields[IDX_CHARACTER_PRESSURE as int].value),
        newline: decimal_of(c.fields[IDX_NEWLINE_PRESSURE as int].value),
        unique_ping: decimal_of(c.fields[IDX_UNIQUE_PING_PRESSURE as int].value),
    }
}

impl GuildConfig {
    fn decimal_field(&self, i: usize) -> (v: u64)
        requires
            i < self@.fields.len(),
        ensures
            v == decimal_of(self@.fields[i as int].value),
    {
        match self.fields[i].value() {
            FieldValue::Decimal(x) => x,
            _ => 0,
        }
    }

    fn uint_field(&self, i: usize) -> (v: u32)
        requires
            i < self@.fields.len(),
        ensures
            v == uint_of(self@.fields[i as int].value),
    {
        match self.fields[i].value() {
            FieldValue::UInt(x) => x,
            _ => 0,
        }
    }

    fn ref_field(&self, i: usize) -> (v: Option<u64>)
        requires
            i < self@.fields.len(),
        ensures
            v == ref_of(self@.fields[i as int].value),
    {
        match self.fields[i].value() {
            FieldValue::ChannelRef(r) => r,
            FieldValue::RoleRef(r) => r,
            _ => None,
        }
    }

    /// The channel moderation reports go to, when set.
    pub fn moderation_channel(&self) -> (v: Option<u64>)
        requires
            self.wf(),
        ensures
            v == ref_of(self@.fields[IDX_MODERATION_CHANNEL as int].value),
    {
        self.ref_field(IDX_MODERATION_CHANNEL)
    }

    /// The channel raiders are pointed to, when set.
    pub fn raid_containment_channel(&self) -> (v: Option<u64>)
        requires
            self.wf(),
        ensures
            v == ref_of(self@.fields[IDX_RAID_CONTAINMENT_CHANNEL as int].value),
    {
        self.ref_field(IDX_RAID_CONTAINMENT_CHANNEL)
    }

    /// The channel silenced members are pointed to, when set.
    pub fn silence_containment_channel(&self) -> (v: Option<u64>)
        requires
            self.wf(),
        ensures
            v == ref_of(self@.fields[IDX_SILENCE_CONTAINMENT_CHANNEL as int].value),
    {
        self.ref_field(IDX_SILENCE_CONTAINMENT_CHANNEL)
    }

    /// The channel log buffers are flushed to, when set.
    pub fn log_channel(&self) -> (v: Option<u64>)
        requires
            self.wf(),
        ensures
            v == ref_of(self@.fields[IDX_LOG_CHANNEL as int].value),
    {
        self.ref_field(IDX_LOG_CHANNEL)
    }

    /// The base role granted to every member, when set.
    pub fn member_role(&self) -> (v: Option<u64>)
        requires
            self.wf(),
        ensures
            v == ref_of(self@.fields[IDX_MEMBER_ROLE as int].value),
    {
        self.ref_field(IDX_MEMBER_ROLE)
    }

    /// The role that restricts a silenced member, when set.
    pub fn silence_role(&self) -> (v: Option<u64>)
        requires
            self.wf(),
        ensures
            v == ref_of(self@.fields[IDX_SILENCE_ROLE as int].value),
    {
        self.ref_field(IDX_SILENCE_ROLE)
    }

    /// The role marking newly joined members, when set.
    pub fn new_role(&self) -> (v: Option<u64>)
        requires
            self.wf(),
        ensures
            v == ref_of(self@.fields[IDX_NEW_ROLE as int].value),
    {
        self.ref_field(IDX_NEW_ROLE)
    }

    /// Seconds within which enough joins open a raid window.
    pub fn raid_trigger_timespan(&self) -> (v: u32)
        requires
            self.wf(),
        ensures
            v == uint_of(self@.fields[IDX_RAID_TRIGGER_TIMESPAN as int].value),
    {
        self.uint_field(IDX_RAID_TRIGGER_TIMESPAN)
    }

    /// How many joins within the timespan open a raid window.
    pub fn raid_trigger_new_user_limit(&self) -> (v: u32)
        requires
            self.wf(),
        ensures
            v == uint_of(self@.fields[IDX_RAID_TRIGGER_NEW_USER_LIMIT as int].value),
    {
        self.uint_field(IDX_RAID_TRIGGER_NEW_USER_LIMIT)
    }

    /// Seconds of quiet after which an open raid window expires.
    pub fn raid_autoexpiration(&self) -> (v: u32)
        requires
            self.wf(),
        ensures
            v == uint_of(self@.fields[IDX_RAID_AUTOEXPIRATION as int].value),
    {
        self.uint_field(IDX_RAID_AUTOEXPIRATION)
    }

    /// The pressure above which a member is silenced.
    pub fn max_pressure(&self) -> (v: u64)
        requires
            self.wf(),
        ensures
            v == decimal_of(self@.fields[IDX_MAX_PRESSURE as int].value),
    {
        self.decimal_field(IDX_MAX_PRESSURE)
    }

    /// The flat pressure of any message.
    pub fn message_pressure(&self) -> (v: u64)
        requires
            self.wf(),
        ensures
            v == decimal_of(self@.fields[IDX_MESSAGE_PRESSURE as int].value),
    {
        self.decimal_field(IDX_MESSAGE_PRESSURE)
    }

    /// The pressure each embed adds.
    pub fn embed_pressure(&self) -> (v: u64)
        requires
            self.wf(),
        ensures
            v == decimal_of(self@.fields[IDX_EMBED_PRESSURE as int].value),
    {
        self.decimal_field(IDX_EMBED_PRESSURE)
    }

    /// The pressure each character adds.
    pub fn character_pressure(&self) -> (v: u64)
        requires
            self.wf(),
        ensures
            v == decimal_of(self@.fields[IDX_CHARACTER_PRESSURE as int].value),
    {
        self.decimal_field(IDX_CHARACTER_PRESSURE)
    }

    /// The pressure each line break adds.
    pub fn newline_pressure(&self) -> (v: u64)
        requires
            self.wf(),
        ensures
            v == decimal_of(self@.fields[IDX_NEWLINE_PRESSURE as int].value),
    {
        self.decimal_field(IDX_NEWLINE_PRESSURE)
    }

    /// The pressure each uniquely mentioned member adds.
    pub fn unique_ping_pressure(&self) -> (v: u64)
        requires
            self.wf(),
        ensures
            v == decimal_of(self@.fields[IDX_UNIQUE_PING_PRESSURE as int].value),
    {
        self.decimal_field(IDX_UNIQUE_PING_PRESSURE)
    }

    /// How much pressure drains away per second.
    pub fn pressure_decay_per_second(&self) -> (v: u64)
        requires
            self.wf(),
        ensures
            v == decimal_of(self@.fields[IDX_PRESSURE_DECAY_PER_SECOND as int].value),
    {
        self.decimal_field(IDX_PRESSURE_DECAY_PER_SECOND)
    }

    /// All the scoring weights together.
    pub fn weights(&self) -> (w: crate::pressure::PressureWeights)
        requires
            self.wf(),
        ensures
            w == spec_weights(self@),
    {
        crate::pressure::PressureWeights {
            message: self.message_pressure(),
            embed: self.embed_pressure(),
            character: self.character_pressure(),
            newline: self.newline_pressure(),
            unique_ping: self.unique_ping_pressure(),
        }
    }
}


/// The guidance message composed for an operator: one line per
/// recommended field still unset, then the optional-steps note.
pub open spec fn setup_help_text(c: ConfigModel) -> Seq<char> {
    let s0 = "Recommended steps you should take:"@;
    let s1 = if ref_of(c.fields[IDX_MODERATION_CHANNEL as int].value) is None {
        s0 + "\n"@
            + "You should setup a moderation channel! Make sure Bussy has the correct permissions to send messages there. Should be visible to mods only."@
    } else {
        s0
    };
    let s2 = if ref_of(c.fields[IDX_LOG_CHANNEL as int].value) is None {
        s1 + "\n"@
            + "Consider setting a log channel, where relevant info will be sent. Should be visible to mods only."@
    } else {
        s1
    };
    let s3 = if ref_of(c.fields[IDX_MEMBER_ROLE as int].value) is None {
        s2 + "\n"@ + "Consider setting a member role. This is the base role assigned to everyone."@
    } else {
        s2
    };
    let s4 = if ref_of(c.fields[IDX_SILENCE_ROLE as int].value) is None {
        s3 + "\n"@
            + "Consider setting the 'silence' role. This will be assigned to users who spam and will restrict their permissions"@
    } else {
        s3
    };
    s4 + "Optional steps you could do to improve user experience."@
}

impl GuildConfig {
    /// Compose the setup guidance for this configuration, and name the
    /// channel it should go to: the moderation channel when one is
    /// set, otherwise the caller falls back to any channel that
    /// accepts it.
    pub fn setup_help(&self) -> (r: (String, Option<u64>))
        requires
            self.wf(),
        ensures
            r.0@ == setup_help_text(self@),
            r.1 == ref_of(self@.fields[IDX_MODERATION_CHANNEL as int].value),
    {
        let mut text = "Recommended steps you should take:".to_owned();
        if self.moderation_channel().is_none() {
            text.append("\n");
            text.append(
                "You should setup a moderation channel! Make sure Bussy has the correct permissions to send messages there. Should be visible to mods only.",
            );
        }
        if self.log_channel().is_none() {
            text.append("\n");
            text.append(
                "Consider setting a log channel, where relevant info will be sent. Should be visible to mods only.",
            );
        }
        if self.member_role().is_none() {
            text.append("\n");
            text.append(
                "Consider setting a member role. This is the base role assigned to everyone.",
            );
        }
        if self.silence_role().is_none() {
            text.append("\n");
            text.append(
                "Consider setting the 'silence' role. This will be assigned to users who spam and will restrict their permissions",
            );
        }
        text.append("Optional steps you could do to improve user experience.");
        (text, self.moderation_channel())
    }
}

} // verus!




