//! Making the user and the room that stand for a phone number.

use vstd::prelude::*;
use vstd::string::*;

use crate::events::{full_user, full_user_id, phone_localpart};
use crate::models::{Recipient, RecipientView};
use crate::pdu::{shown_address, AddressView, PduAddress};
use crate::store::{StoreReply, StoreReplyView, StoreRequest, StoreRequestView};
use crate::text::{join2, text_eq};
use crate::util::{normalize_address, normalized};

verus! {

/// The power level of one who may do everything in a room.
pub const ADMIN_LEVEL: u32 = 100;

/// Whether a room is listed.
#[derive(Debug, Clone, Copy, PartialEq, Eq, Structural)]
pub enum RoomVisibility {
    Public,
    Private,
}

/// Who may do what in a new room.
#[derive(Debug, Clone, Copy, PartialEq, Eq, Structural)]
pub enum RoomPreset {
    PrivateChat,
    TrustedPrivateChat,
    PublicChat,
}

/// A room to be made, with one user invited to it.
pub struct RoomOptions {
    pub preset: RoomPreset,
    pub visibility: RoomVisibility,
    pub is_direct: bool,
    pub invite: String,
    pub room_alias_name: String,
    pub name: String,
}

/// What a `RoomOptions` holds.
pub struct RoomOptionsView {
    pub preset: RoomPreset,
    pub visibility: RoomVisibility,
    pub is_direct: bool,
    pub invite: Seq<char>,
    pub room_alias_name: Seq<char>,
    pub name: Seq<char>,
}

impl View for RoomOptions {
    type V = RoomOptionsView;

    open spec fn view(&self) -> RoomOptionsView {
        RoomOptionsView {
            preset: self.preset,
            visibility: self.visibility,
            is_direct: self.is_direct,
            invite: self.invite@,
            room_alias_name: self.room_alias_name@,
            name: self.name@,
        }
    }
}

/// Why no user and room could be made or taken over.
#[derive(Debug, Clone, Copy, PartialEq, Eq, Structural)]
pub enum FactoryError {
    /// The database failed.
    Store,
    /// The user could not be registered.
    Register,
    /// The room could not be made.
    CreateRoom,
    /// The user could not join the room.
    JoinRoom,
    /// Who is in the room could not be found out.
    Members,
    /// What the one who runs the bridge may do in the room could not be found out.
    PowerLevel,
}

/// What is to be done next; each but the last two is answered by the input of the same name.
pub enum FactoryAction {
    /// An operation on the database.
    Store(StoreRequest),
    /// Register a user.
    Register { localpart: String },
    /// Make a room.
    CreateRoom(RoomOptions),
    /// Join a room.
    JoinRoom { room_id: String },
    /// List who is in a room.
    Members { room_id: String },
    /// Invite a user to a room.
    Invite { room_id: String, user: String },
    /// Find out a user's power level in a room.
    PowerLevel { room_id: String, user: String },
    /// Fetch the power levels of a room.
    PowerLevels { room_id: String },
    /// Change the power level of one user in those that were fetched, and store them.
    SetPowerLevel { room_id: String, user: String, level: u32 },
    /// Manage the messages of a recipient, in a room.
    Finish { recipient_id: i32, room_id: String },
    /// Give up.
    Fail(FactoryError),
}

/// What a `FactoryAction` holds.
pub enum FactoryActionView {
    Store(StoreRequestView),
    Register { localpart: Seq<char> },
    CreateRoom(RoomOptionsView),
    JoinRoom { room_id: Seq<char> },
    Members { room_id: Seq<char> },
    Invite { room_id: Seq<char>, user: Seq<char> },
    PowerLevel { room_id: Seq<char>, user: Seq<char> },
    PowerLevels { room_id: Seq<char> },
    SetPowerLevel { room_id: Seq<char>, user: Seq<char>, level: u32 },
    Finish { recipient_id: i32, room_id: Seq<char> },
    Fail(FactoryError),
}

impl View for FactoryAction {
    type V = FactoryActionView;

    open spec fn view(&self) -> FactoryActionView {
        match *self {
            FactoryAction::Store(request) => FactoryActionView::Store(request@),
            FactoryAction::Register { localpart } => FactoryActionView::Register {
                localpart: localpart@,
            },
            FactoryAction::CreateRoom(options) => FactoryActionView::CreateRoom(options@),
            FactoryAction::JoinRoom { room_id } => FactoryActionView::JoinRoom {
                room_id: room_id@,
            },
            FactoryAction::Members { room_id } => FactoryActionView::Members { room_id: room_id@ },
            FactoryAction::Invite { room_id, user } => FactoryActionView::Invite {
                room_id: room_id@,
                user: user@,
            },
            FactoryAction::PowerLevel { room_id, user } => FactoryActionView::PowerLevel {
                room_id: room_id@,
                user: user@,
            },
            FactoryAction::PowerLevels { room_id } => FactoryActionView::PowerLevels {
                room_id: room_id@,
            },
            FactoryAction::SetPowerLevel {
                room_id,
                user,
                level,
            } => FactoryActionView::SetPowerLevel { room_id: room_id@, user: user@, level },
            FactoryAction::Finish { recipient_id, room_id } => FactoryActionView::Finish {
                recipient_id,
                room_id: room_id@,
            },
            FactoryAction::Fail(error) => FactoryActionView::Fail(error),
        }
    }
}

/// What is to be done: from now on act as this user, where one is given, and then this.
pub struct FactoryStep {
    pub act_as: Option<String>,
    pub action: FactoryAction,
}

/// What a `FactoryStep` holds.
pub struct FactoryStepView {
    pub act_as: Option<Seq<char>>,
    pub action: FactoryActionView,
}

impl View for FactoryStep {
    type V = FactoryStepView;

    open spec fn view(&self) -> FactoryStepView {
        FactoryStepView {
            act_as: match self.act_as {
                Some(user) => Some(user@),
                None => None,
            },
            action: self.action@,
        }
    }
}

/// How a registration went.
pub enum Registration {
    Done,
    /// The homeserver refused it, with this code.
    Refused { errcode: String },
    /// It failed in another way.
    Failed,
}

/// What a `Registration` holds.
pub enum RegistrationView {
    Done,
    Refused { errcode: Seq<char> },
    Failed,
}

impl View for Registration {
    type V = RegistrationView;

    open spec fn view(&self) -> RegistrationView {
        match *self {
            Registration::Done => RegistrationView::Done,
            Registration::Refused { errcode } => RegistrationView::Refused { errcode: errcode@ },
            Registration::Failed => RegistrationView::Failed,
        }
    }
}

/// What comes in: how the last thing to be done went. A result that is missing stands for a
/// failure.
pub enum FactoryInput {
    Start,
    Store(StoreReply),
    Register(Registration),
    CreateRoom(Option<String>),
    JoinRoom(bool),
    Members(Option<Vec<String>>),
    Invite(bool),
    PowerLevel(Option<u32>),
    PowerLevels(bool),
    SetPowerLevel(bool),
}

/// The contents of several strings.
pub open spec fn texts_view(texts: Seq<String>) -> Seq<Seq<char>> {
    Seq::new(texts.len(), |i: int| texts[i]@)
}

/// What a `FactoryInput` holds.
pub enum FactoryInputView {
    Start,
    Store(StoreReplyView),
    Register(RegistrationView),
    CreateRoom(Option<Seq<char>>),
    JoinRoom(bool),
    Members(Option<Seq<Seq<char>>>),
    Invite(bool),
    PowerLevel(Option<u32>),
    PowerLevels(bool),
    SetPowerLevel(bool),
}

impl View for FactoryInput {
    type V = FactoryInputView;

    open spec fn view(&self) -> FactoryInputView {
        match *self {
            FactoryInput::Start => FactoryInputView::Start,
            FactoryInput::Store(reply) => FactoryInputView::Store(reply@),
            FactoryInput::Register(registration) => FactoryInputView::Register(registration@),
            FactoryInput::CreateRoom(Some(room)) => FactoryInputView::CreateRoom(Some(room@)),
            FactoryInput::CreateRoom(None) => FactoryInputView::CreateRoom(None),
            FactoryInput::JoinRoom(done) => FactoryInputView::JoinRoom(done),
            FactoryInput::Members(Some(members)) => FactoryInputView::Members(
                Some(texts_view(members@)),
            ),
            FactoryInput::Members(None) => FactoryInputView::Members(None),
            FactoryInput::Invite(done) => FactoryInputView::Invite(done),
            FactoryInput::PowerLevel(level) => FactoryInputView::PowerLevel(level),
            FactoryInput::PowerLevels(done) => FactoryInputView::PowerLevels(done),
            FactoryInput::SetPowerLevel(done) => FactoryInputView::SetPowerLevel(done),
        }
    }
}

/// How far a factory has come.
pub enum StageView {
    /// Nothing has been done.
    New,
    /// The recipient is being looked for.
    Finding,
    /// The user is being registered.
    Registering,
    /// The room is being made.
    CreatingRoom,
    /// The user is joining the room.
    Joining { room_id: Seq<char> },
    /// The recipient is being stored.
    Saving { room_id: Seq<char> },
    /// Who is in the recipient's room is being found out.
    ListingMembers { recipient: RecipientView },
    /// The one who runs the bridge is being invited.
    Inviting { recipient: RecipientView },
    /// What they may do is being found out.
    ReadingLevel { recipient: RecipientView },
    /// The power levels are being fetched.
    ReadingLevels { recipient: RecipientView },
    /// The power levels are being stored.
    SettingLevel { recipient: RecipientView },
    /// There is nothing left to do.
    Ended,
}

/// What a factory holds.
pub struct FactoryView {
    pub addr: AddressView,
    pub admin: Seq<char>,
    pub hs_localpart: Seq<char>,
    pub stage: StageView,
}

/// The user who stands for an address.
pub open spec fn address_user(addr: AddressView, hs_localpart: Seq<char>) -> Seq<char> {
    full_user(phone_localpart(normalized(addr)), hs_localpart)
}

/// The room for an address.
pub open spec fn address_room(addr: AddressView, hs_localpart: Seq<char>) -> RoomOptionsView {
    RoomOptionsView {
        preset: RoomPreset::TrustedPrivateChat,
        visibility: RoomVisibility::Private,
        is_direct: true,
        invite: address_user(addr, hs_localpart),
        room_alias_name: phone_localpart(normalized(addr)),
        name: shown_address(addr) + " (SMS)"@,
    }
}

/// Whether a user is there after an attempt to register them: they may have been before.
pub open spec fn is_registered(registration: RegistrationView) -> bool {
    match registration {
        RegistrationView::Done => true,
        RegistrationView::Refused { errcode } => errcode == "M_USER_IN_USE"@,
        RegistrationView::Failed => false,
    }
}

impl FactoryView {
    /// The factory further on, with something to be done.
    pub open spec fn to(self, stage: StageView, action: FactoryActionView) -> (
        FactoryView,
        FactoryStepView,
    ) {
        (FactoryView { stage, ..self }, FactoryStepView { act_as: None, action })
    }

    /// The factory given up.
    pub open spec fn failed(self, error: FactoryError) -> (FactoryView, FactoryStepView) {
        self.to(StageView::Ended, FactoryActionView::Fail(error))
    }

    /// The recipient is there: goes on as their user, with who is in their room.
    pub open spec fn enter(self, recipient: RecipientView) -> (FactoryView, FactoryStepView) {
        (
            FactoryView { stage: StageView::ListingMembers { recipient }, ..self },
            FactoryStepView {
                act_as: Some(full_user(recipient.user_id, self.hs_localpart)),
                action: FactoryActionView::Members { room_id: recipient.room_id },
            },
        )
    }

    /// The one who runs the bridge is in the recipient's room or was invited.
    pub open spec fn check_level(self, recipient: RecipientView) -> (
        FactoryView,
        FactoryStepView,
    ) {
        self.to(
            StageView::ReadingLevel { recipient },
            FactoryActionView::PowerLevel { room_id: recipient.room_id, user: self.admin },
        )
    }

    /// All is done.
    pub open spec fn finished(self, recipient: RecipientView) -> (FactoryView, FactoryStepView) {
        self.to(
            StageView::Ended,
            FactoryActionView::Finish { recipient_id: recipient.id, room_id: recipient.room_id },
        )
    }

    /// Whether something can come in now.
    pub open spec fn accepts(self, input: FactoryInputView) -> bool {
        match (self.stage, input) {
            (StageView::New, FactoryInputView::Start) => true,
            (StageView::Finding, FactoryInputView::Store(reply)) => reply is Failed
                || reply is Found,
            (StageView::Registering, FactoryInputView::Register(_)) => true,
            (StageView::CreatingRoom, FactoryInputView::CreateRoom(_)) => true,
            (StageView::Joining { .. }, FactoryInputView::JoinRoom(_)) => true,
            (StageView::Saving { .. }, FactoryInputView::Store(reply)) => reply is Failed
                || reply is Recipient,
            (StageView::ListingMembers { .. }, FactoryInputView::Members(_)) => true,
            (StageView::Inviting { .. }, FactoryInputView::Invite(_)) => true,
            (StageView::ReadingLevel { .. }, FactoryInputView::PowerLevel(_)) => true,
            (StageView::ReadingLevels { .. }, FactoryInputView::PowerLevels(_)) => true,
            (StageView::SettingLevel { .. }, FactoryInputView::SetPowerLevel(_)) => true,
            _ => false,
        }
    }

    /// How far the factory comes, and what is to be done, when something comes in.
    pub open spec fn run(self, input: FactoryInputView) -> (FactoryView, FactoryStepView) {
        match (self.stage, input) {
            (StageView::New, FactoryInputView::Start) => self.to(
                StageView::Finding,
                FactoryActionView::Store(
                    StoreRequestView::GetRecipientForAddress {
                        phone_number: normalized(self.addr),
                    },
                ),
            ),
            (StageView::Finding, FactoryInputView::Store(reply)) => match reply {
                StoreReplyView::Found(Some(recipient)) => self.enter(recipient),
                StoreReplyView::Found(None) => self.to(
                    StageView::Registering,
                    FactoryActionView::Register {
                        localpart: phone_localpart(normalized(self.addr)),
                    },
                ),
                _ => self.failed(FactoryError::Store),
            },
            (StageView::Registering, FactoryInputView::Register(registration)) => {
                if is_registered(registration) {
                    self.to(
                        StageView::CreatingRoom,
                        FactoryActionView::CreateRoom(address_room(self.addr, self.hs_localpart)),
                    )
                } else {
                    self.failed(FactoryError::Register)
                }
            },
            (StageView::CreatingRoom, FactoryInputView::CreateRoom(room)) => match room {
                Some(room_id) => (
                    FactoryView { stage: StageView::Joining { room_id }, ..self },
                    FactoryStepView {
                        act_as: Some(address_user(self.addr, self.hs_localpart)),
                        action: FactoryActionView::JoinRoom { room_id },
                    },
                ),
                None => self.failed(FactoryError::CreateRoom),
            },
            (StageView::Joining { room_id }, FactoryInputView::JoinRoom(done)) => {
                if done {
                    self.to(
                        StageView::Saving { room_id },
                        FactoryActionView::Store(
                            StoreRequestView::CreateRecipient {
                                phone_number: normalized(self.addr),
                                user_id: phone_localpart(normalized(self.addr)),
                                room_id,
                            },
                        ),
                    )
                } else {
                    self.failed(FactoryError::JoinRoom)
                }
            },
            (StageView::Saving { .. }, FactoryInputView::Store(reply)) => match reply {
                StoreReplyView::Recipient(recipient) => self.enter(recipient),
                _ => self.failed(FactoryError::Store),
            },
            (StageView::ListingMembers { recipient }, FactoryInputView::Members(members)) => {
                match members {
                    Some(members) => if members.contains(self.admin) {
                        self.check_level(recipient)
                    } else {
                        self.to(
                            StageView::Inviting { recipient },
                            FactoryActionView::Invite {
                                room_id: recipient.room_id,
                                user: self.admin,
                            },
                        )
                    },
                    None => self.failed(FactoryError::Members),
                }
            },
            (StageView::Inviting { recipient }, FactoryInputView::Invite(_)) => self.check_level(
                recipient,
            ),
            (StageView::ReadingLevel { recipient }, FactoryInputView::PowerLevel(level)) => {
                match level {
                    Some(level) => if level < ADMIN_LEVEL {
                        self.to(
                            StageView::ReadingLevels { recipient },
                            FactoryActionView::PowerLevels { room_id: recipient.room_id },
                        )
                    } else {
                        self.finished(recipient)
                    },
                    None => self.failed(FactoryError::PowerLevel),
                }
            },
            (StageView::ReadingLevels { recipient }, FactoryInputView::PowerLevels(done)) => {
                if done {
                    self.to(
                        StageView::SettingLevel { recipient },
                        FactoryActionView::SetPowerLevel {
                            room_id: recipient.room_id,
                            user: self.admin,
                            level: ADMIN_LEVEL,
                        },
                    )
                } else {
                    self.finished(recipient)
                }
            },
            (StageView::SettingLevel { recipient }, FactoryInputView::SetPowerLevel(_)) => {
                self.finished(recipient)
            },
            _ => self.failed(FactoryError::Store),
        }
    }
}

/// How far a factory has come.
enum Stage {
    New,
    Finding,
    Registering,
    CreatingRoom,
    Joining { room_id: String },
    Saving { room_id: String },
    ListingMembers { recipient: Recipient },
    Inviting { recipient: Recipient },
    ReadingLevel { recipient: Recipient },
    ReadingLevels { recipient: Recipient },
    SettingLevel { recipient: Recipient },
    Ended,
}

impl View for Stage {
    type V = StageView;

    closed spec fn view(&self) -> StageView {
        match *self {
            Stage::New => StageView::New,
            Stage::Finding => StageView::Finding,
            Stage::Registering => StageView::Registering,
            Stage::CreatingRoom => StageView::CreatingRoom,
            Stage::Joining { room_id } => StageView::Joining { room_id: room_id@ },
            Stage::Saving { room_id } => StageView::Saving { room_id: room_id@ },
            Stage::ListingMembers { recipient } => StageView::ListingMembers {
                recipient: recipient@,
            },
            Stage::Inviting { recipient } => StageView::Inviting { recipient: recipient@ },
            Stage::ReadingLevel { recipient } => StageView::ReadingLevel { recipient: recipient@ },
            Stage::ReadingLevels { recipient } => StageView::ReadingLevels {
                recipient: recipient@,
            },
            Stage::SettingLevel { recipient } => StageView::SettingLevel { recipient: recipient@ },
            Stage::Ended => StageView::Ended,
        }
    }
}

/// Makes the user and the room that stand for a phone number, unless they are there already, and
/// sees to it that the one who runs the bridge is in the room and may do everything in it.
pub struct RecipientFactory {
    addr: PduAddress,
    admin: String,
    hs_localpart: String,
    stage: Stage,
}

impl View for RecipientFactory {
    type V = FactoryView;

    closed spec fn view(&self) -> FactoryView {
        FactoryView {
            addr: self.addr@,
            admin: self.admin@,
            hs_localpart: self.hs_localpart@,
            stage: self.stage@,
        }
    }
}

fn is_member(members: &Vec<String>, user: &str) -> (r: bool)
    ensures
        r == texts_view(members@).contains(user@),
{
    let mut i: usize = 0;
    while i < members.len()
        invariant
            i <= members.len(),
            forall|j: int| 0 <= j < i ==> (#[trigger] texts_view(members@)[j]) != user@,
        decreases members.len() - i,
    {
        if text_eq(members[i].as_str(), user) {
            assert(texts_view(members@)[i as int] == user@);
            return true;
        }
        i = i + 1;
    }
    false
}

fn registered(registration: &Registration) -> (r: bool)
    ensures
        r == is_registered(registration@),
{
    match registration {
        Registration::Done => true,
        Registration::Refused { errcode } => text_eq(errcode.as_str(), "M_USER_IN_USE"),
        Registration::Failed => false,
    }
}

impl RecipientFactory {
    /// A factory that has done nothing yet.
    pub fn new(addr: PduAddress, admin: String, hs_localpart: String) -> (r: RecipientFactory)
        ensures
            r@ == (FactoryView {
                addr: addr@,
                admin: admin@,
                hs_localpart: hs_localpart@,
                stage: StageView::New,
            }),
    {
        RecipientFactory { addr, admin, hs_localpart, stage: Stage::New }
    }

    fn go(&mut self, stage: Stage, action: FactoryAction) -> (r: FactoryStep)
        ensures
            (final(self)@, r@) == old(self)@.to(stage@, action@),
    {
        self.stage = stage;
        FactoryStep { act_as: None, action }
    }

    fn fail(&mut self, error: FactoryError) -> (r: FactoryStep)
        ensures
            (final(self)@, r@) == old(self)@.failed(error),
    {
        self.go(Stage::Ended, FactoryAction::Fail(error))
    }

    fn localpart(&self) -> (r: String)
        ensures
            r@ == phone_localpart(normalized(self@.addr)),
    {
        join2("_sms_", normalize_address(&self.addr).as_str())
    }

    fn room_options(&self) -> (r: RoomOptions)
        ensures
            r@ == address_room(self@.addr, self@.hs_localpart),
    {
        let localpart: String = self.localpart();
        RoomOptions {
            preset: RoomPreset::TrustedPrivateChat,
            visibility: RoomVisibility::Private,
            is_direct: true,
            invite: full_user_id(localpart.as_str(), self.hs_localpart.as_str()),
            room_alias_name: localpart,
            name: self.addr.display().concat(" (SMS)"),
        }
    }

    fn enter(&mut self, recipient: Recipient) -> (r: FactoryStep)
        ensures
            (final(self)@, r@) == old(self)@.enter(recipient@),
    {
        let user: String = full_user_id(recipient.user_id.as_str(), self.hs_localpart.as_str());
        let room_id: String = recipient.room_id.clone();
        self.stage = Stage::ListingMembers { recipient };
        FactoryStep { act_as: Some(user), action: FactoryAction::Members { room_id } }
    }

    fn check_level(&mut self, recipient: Recipient) -> (r: FactoryStep)
        ensures
            (final(self)@, r@) == old(self)@.check_level(recipient@),
    {
        let room_id: String = recipient.room_id.clone();
        let user: String = self.admin.clone();
        self.go(Stage::ReadingLevel { recipient }, FactoryAction::PowerLevel { room_id, user })
    }

    fn finish(&mut self, recipient: Recipient) -> (r: FactoryStep)
        ensures
            (final(self)@, r@) == old(self)@.finished(recipient@),
    {
        self.go(
            Stage::Ended,
            FactoryAction::Finish { recipient_id: recipient.id, room_id: recipient.room_id },
        )
    }

    fn join(&mut self, room_id: String) -> (r: FactoryStep)
        ensures
            final(self)@ == (FactoryView {
                stage: StageView::Joining { room_id: room_id@ },
                ..old(self)@
            }),
            r@ == (FactoryStepView {
                act_as: Some(address_user(old(self)@.addr, old(self)@.hs_localpart)),
                action: FactoryActionView::JoinRoom { room_id: room_id@ },
            }),
    {
        let user: String = full_user_id(self.localpart().as_str(), self.hs_localpart.as_str());
        self.stage = Stage::Joining { room_id: room_id.clone() };
        FactoryStep { act_as: Some(user), action: FactoryAction::JoinRoom { room_id } }
    }

    fn save(&mut self, room_id: String) -> (r: FactoryStep)
        ensures
            (final(self)@, r@) == old(self)@.to(
                StageView::Saving { room_id: room_id@ },
                FactoryActionView::Store(
                    StoreRequestView::CreateRecipient {
                        phone_number: normalized(old(self)@.addr),
                        user_id: phone_localpart(normalized(old(self)@.addr)),
                        room_id: room_id@,
                    },
                ),
            ),
    {
        let request: StoreRequest = StoreRequest::CreateRecipient {
            phone_number: normalize_address(&self.addr),
            user_id: self.localpart(),
            room_id: room_id.clone(),
        };
        self.go(Stage::Saving { room_id }, FactoryAction::Store(request))
    }

    fn invite(&mut self, recipient: Recipient) -> (r: FactoryStep)
        ensures
            (final(self)@, r@) == old(self)@.to(
                StageView::Inviting { recipient: recipient@ },
                FactoryActionView::Invite { room_id: recipient@.room_id, user: old(self)@.admin },
            ),
    {
        let room_id: String = recipient.room_id.clone();
        let user: String = self.admin.clone();
        self.go(Stage::Inviting { recipient }, FactoryAction::Invite { room_id, user })
    }

    fn read_levels(&mut self, recipient: Recipient) -> (r: FactoryStep)
        ensures
            (final(self)@, r@) == old(self)@.to(
                StageView::ReadingLevels { recipient: recipient@ },
                FactoryActionView::PowerLevels { room_id: recipient@.room_id },
            ),
    {
        let room_id: String = recipient.room_id.clone();
        self.go(Stage::ReadingLevels { recipient }, FactoryAction::PowerLevels { room_id })
    }

    fn set_level(&mut self, recipient: Recipient) -> (r: FactoryStep)
        ensures
            (final(self)@, r@) == old(self)@.to(
                StageView::SettingLevel { recipient: recipient@ },
                FactoryActionView::SetPowerLevel {
                    room_id: recipient@.room_id,
                    user: old(self)@.admin,
                    level: ADMIN_LEVEL,
                },
            ),
    {
        let room_id: String = recipient.room_id.clone();
        let user: String = self.admin.clone();
        self.go(
            Stage::SettingLevel { recipient },
            FactoryAction::SetPowerLevel { room_id, user, level: ADMIN_LEVEL },
        )
    }

    /// Whether something can come in now.
    pub fn accepts(&self, input: &FactoryInput) -> (r: bool)
        ensures
            r == self@.accepts(input@),
    {
        match (&self.stage, input) {
            (Stage::New, FactoryInput::Start) => true,
            (Stage::Finding, FactoryInput::Store(reply)) => {
                matches!(reply, StoreReply::Failed | StoreReply::Found(_))
            },
            (Stage::Registering, FactoryInput::Register(_)) => true,
            (Stage::CreatingRoom, FactoryInput::CreateRoom(_)) => true,
            (Stage::Joining { .. }, FactoryInput::JoinRoom(_)) => true,
            (Stage::Saving { .. }, FactoryInput::Store(reply)) => {
                matches!(reply, StoreReply::Failed | StoreReply::Recipient(_))
            },
            (Stage::ListingMembers { .. }, FactoryInput::Members(_)) => true,
            (Stage::Inviting { .. }, FactoryInput::Invite(_)) => true,
            (Stage::ReadingLevel { .. }, FactoryInput::PowerLevel(_)) => true,
            (Stage::ReadingLevels { .. }, FactoryInput::PowerLevels(_)) => true,
            (Stage::SettingLevel { .. }, FactoryInput::SetPowerLevel(_)) => true,
            _ => false,
        }
    }

    /// Takes in how the last thing went, and says what is to be done next.
    pub fn run(&mut self, input: FactoryInput) -> (r: FactoryStep)
        requires
            old(self)@.accepts(input@),
        ensures
            (final(self)@, r@) == old(self)@.run(input@),
    {
        let mut stage: Stage = Stage::Ended;
        std::mem::swap(&mut stage, &mut self.stage);
        match (stage, input) {
            (Stage::New, FactoryInput::Start) => {
                let phone_number: String = normalize_address(&self.addr);
                self.go(
                    Stage::Finding,
                    FactoryAction::Store(StoreRequest::GetRecipientForAddress { phone_number }),
                )
            },
            (Stage::Finding, FactoryInput::Store(reply)) => match reply {
                StoreReply::Found(Some(recipient)) => self.enter(recipient),
                StoreReply::Found(None) => {
                    let localpart: String = self.localpart();
                    self.go(Stage::Registering, FactoryAction::Register { localpart })
                },
                _ => self.fail(FactoryError::Store),
            },
            (Stage::Registering, FactoryInput::Register(registration)) => {
                if registered(&registration) {
                    let options: RoomOptions = self.room_options();
                    self.go(Stage::CreatingRoom, FactoryAction::CreateRoom(options))
                } else {
                    self.fail(FactoryError::Register)
                }
            },
            (Stage::CreatingRoom, FactoryInput::CreateRoom(room)) => match room {
                Some(room_id) => self.join(room_id),
                None => self.fail(FactoryError::CreateRoom),
            },
            (Stage::Joining { room_id }, FactoryInput::JoinRoom(done)) => {
                if done {
                    self.save(room_id)
                } else {
                    self.fail(FactoryError::JoinRoom)
                }
            },
            (Stage::Saving { room_id: _ }, FactoryInput::Store(reply)) => match reply {
                StoreReply::Recipient(recipient) => self.enter(recipient),
                _ => self.fail(FactoryError::Store),
            },
            (Stage::ListingMembers { recipient }, FactoryInput::Members(members)) => {
                match members {
                    Some(members) => {
                        if is_member(&members, self.admin.as_str()) {
                            self.check_level(recipient)
                        } else {
                            self.invite(recipient)
                        }
                    },
                    None => self.fail(FactoryError::Members),
                }
            },
            (Stage::Inviting { recipient }, FactoryInput::Invite(_)) => self.check_level(recipient),
            (Stage::ReadingLevel { recipient }, FactoryInput::PowerLevel(level)) => match level {
                Some(level) => {
                    if level < ADMIN_LEVEL {
                        self.read_levels(recipient)
                    } else {
                        self.finish(recipient)
                    }
                },
                None => self.fail(FactoryError::PowerLevel),
            },
            (Stage::ReadingLevels { recipient }, FactoryInput::PowerLevels(done)) => {
                if done {
                    self.set_level(recipient)
                } else {
                    self.finish(recipient)
                }
            },
            (Stage::SettingLevel { recipient }, FactoryInput::SetPowerLevel(_)) => {
                self.finish(recipient)
            },
            _ => self.fail(FactoryError::Store),
        }
    }
}

/// Texts are told apart by the order in which they stand.
pub proof fn law_texts_stand_in_order(items: Seq<String>, i: int)
    requires
        0 <= i < items.len(),
    ensures
        texts_view(items).len() == items.len(),
        texts_view(items)[i] == items[i]@,
{
}

} // verus!
