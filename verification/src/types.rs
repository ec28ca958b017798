//! The closed set of decoded response values produced by the grammar.
//!
//! Decoded text is carried as owned byte vectors copied out of the input
//! buffer: response fields are short, and owning them frees the decoded
//! value from the transport buffer's lifetime. Each compound type has a
//! ghost view (its `DeepView`), over which every parser contract speaks.

use vstd::prelude::*;
use crate::tag::Tag;

verus! {

/// Condition of a tagged or untagged status response.
#[derive(Debug, PartialEq, Eq, Clone, Copy)]
pub enum ImapResult {
    Okay,
    Bad,
    No,
}

impl DeepView for ImapResult {
    type V = ImapResult;

    open spec fn deep_view(&self) -> ImapResult {
        *self
    }
}

/// The flags RFC 3501 defines with a backslash prefix.
#[derive(Debug, PartialEq, Eq, Clone, Copy)]
pub enum DefinedFlag {
    Seen,
    Answered,
    Flagged,
    Deleted,
    Draft,
    Recent,
}

impl DeepView for DefinedFlag {
    type V = DefinedFlag;

    open spec fn deep_view(&self) -> DefinedFlag {
        *self
    }
}

/// A message flag: a defined flag, a keyword atom, a flag extension
/// (backslash atom), or `\*` as it appears inside `PERMANENTFLAGS`.
#[derive(Debug, PartialEq, Eq, Clone)]
pub enum Flag {
    Defined(DefinedFlag),
    Keyword(Vec<u8>),
    Extension(Vec<u8>),
    Perm,
}

pub ghost enum FlagView {
    Defined(DefinedFlag),
    Keyword(Seq<u8>),
    Extension(Seq<u8>),
    Perm,
}

impl DeepView for Flag {
    type V = FlagView;

    open spec fn deep_view(&self) -> FlagView {
        match self {
            Flag::Defined(d) => FlagView::Defined(*d),
            Flag::Keyword(v) => FlagView::Keyword(v.deep_view()),
            Flag::Extension(v) => FlagView::Extension(v.deep_view()),
            Flag::Perm => FlagView::Perm,
        }
    }
}

/// The mailbox-list flags RFC 3501 defines.
#[derive(Debug, PartialEq, Eq, Clone, Copy)]
pub enum ListDefinedFlag {
    Noinferiors,
    Noselect,
    Marked,
    Unmarked,
}

impl DeepView for ListDefinedFlag {
    type V = ListDefinedFlag;

    open spec fn deep_view(&self) -> ListDefinedFlag {
        *self
    }
}

/// A mailbox-list flag: defined or an extension.
#[derive(Debug, PartialEq, Eq, Clone)]
pub enum ListFlag {
    Defined(ListDefinedFlag),
    Extension(Vec<u8>),
}

pub ghost enum ListFlagView {
    Defined(ListDefinedFlag),
    Extension(Seq<u8>),
}

impl DeepView for ListFlag {
    type V = ListFlagView;

    open spec fn deep_view(&self) -> ListFlagView {
        match self {
            ListFlag::Defined(d) => ListFlagView::Defined(*d),
            ListFlag::Extension(v) => ListFlagView::Extension(v.deep_view()),
        }
    }
}

/// One mailbox as listed by `LIST` or `LSUB`: its flags, the hierarchy
/// delimiter byte if there is one, and its name.
#[derive(Debug, PartialEq, Eq, Clone)]
pub struct ListMailBox {
    pub flags: Vec<ListFlag>,
    pub delimiter: Option<u8>,
    pub name: Vec<u8>,
}

pub ghost struct ListMailBoxView {
    pub flags: Seq<ListFlagView>,
    pub delimiter: Option<u8>,
    pub name: Seq<u8>,
}

impl DeepView for ListMailBox {
    type V = ListMailBoxView;

    open spec fn deep_view(&self) -> ListMailBoxView {
        ListMailBoxView {
            flags: self.flags.deep_view(),
            delimiter: self.delimiter,
            name: self.name.deep_view(),
        }
    }
}

/// One capability: an `AUTH=` mechanism or any other capability atom.
#[derive(Debug, PartialEq, Eq, Clone)]
pub enum Capability {
    Auth(Vec<u8>),
    Other(Vec<u8>),
}

pub ghost enum CapabilityView {
    Auth(Seq<u8>),
    Other(Seq<u8>),
}

impl DeepView for Capability {
    type V = CapabilityView;

    open spec fn deep_view(&self) -> CapabilityView {
        match self {
            Capability::Auth(v) => CapabilityView::Auth(v.deep_view()),
            Capability::Other(v) => CapabilityView::Other(v.deep_view()),
        }
    }
}

/// A bracketed resp-text-code. Any bracketed atom that is none of the
/// defined codes is kept as an opaque extension (`Other`) with its
/// optional argument text, rather than failing the parse.
#[derive(Debug, PartialEq, Eq, Clone)]
pub enum RespTextCode {
    Alert,
    BadCharset(Vec<Vec<u8>>),
    Capability(Vec<Capability>),
    Parse,
    PermanentFlags(Vec<Flag>),
    ReadOnly,
    ReadWrite,
    TryCreate,
    UidNext(u32),
    UidValidity(u32),
    Unseen(u32),
    Other(Vec<u8>, Option<Vec<u8>>),
}

pub ghost enum RespTextCodeView {
    Alert,
    BadCharset(Seq<Seq<u8>>),
    Capability(Seq<CapabilityView>),
    Parse,
    PermanentFlags(Seq<FlagView>),
    ReadOnly,
    ReadWrite,
    TryCreate,
    UidNext(u32),
    UidValidity(u32),
    Unseen(u32),
    Other(Seq<u8>, Option<Seq<u8>>),
}

impl DeepView for RespTextCode {
    type V = RespTextCodeView;

    open spec fn deep_view(&self) -> RespTextCodeView {
        match self {
            RespTextCode::Alert => RespTextCodeView::Alert,
            RespTextCode::BadCharset(v) => RespTextCodeView::BadCharset(v.deep_view()),
            RespTextCode::Capability(v) => RespTextCodeView::Capability(v.deep_view()),
            RespTextCode::Parse => RespTextCodeView::Parse,
            RespTextCode::PermanentFlags(v) => RespTextCodeView::PermanentFlags(v.deep_view()),
            RespTextCode::ReadOnly => RespTextCodeView::ReadOnly,
            RespTextCode::ReadWrite => RespTextCodeView::ReadWrite,
            RespTextCode::TryCreate => RespTextCodeView::TryCreate,
            RespTextCode::UidNext(n) => RespTextCodeView::UidNext(*n),
            RespTextCode::UidValidity(n) => RespTextCodeView::UidValidity(*n),
            RespTextCode::Unseen(n) => RespTextCodeView::Unseen(*n),
            RespTextCode::Other(name, arg) => RespTextCodeView::Other(
                name.deep_view(),
                arg.deep_view(),
            ),
        }
    }
}

/// resp-text: the bracketed codes followed by the free text of a status
/// line. The free text is carried verbatim.
#[derive(Debug, PartialEq, Eq, Clone)]
pub struct RespText {
    pub code: Vec<RespTextCode>,
    pub text: Vec<u8>,
}

pub ghost struct RespTextView {
    pub code: Seq<RespTextCodeView>,
    pub text: Seq<u8>,
}

impl DeepView for RespText {
    type V = RespTextView;

    open spec fn deep_view(&self) -> RespTextView {
        RespTextView { code: self.code.deep_view(), text: self.text.deep_view() }
    }
}

/// resp-cond-state: an `OK`, `NO` or `BAD` condition with its text.
#[derive(Debug, PartialEq, Eq, Clone)]
pub struct RespCond {
    pub status: ImapResult,
    pub text: RespText,
}

pub ghost struct RespCondView {
    pub status: ImapResult,
    pub text: RespTextView,
}

impl DeepView for RespCond {
    type V = RespCondView;

    open spec fn deep_view(&self) -> RespCondView {
        RespCondView { status: self.status, text: self.text.deep_view() }
    }
}

/// resp-cond-bye: a `BYE` announcement with its text.
#[derive(Debug, PartialEq, Eq, Clone)]
pub struct ByeResponse {
    pub resp: RespText,
}

pub ghost struct ByeResponseView {
    pub resp: RespTextView,
}

impl DeepView for ByeResponse {
    type V = ByeResponseView;

    open spec fn deep_view(&self) -> ByeResponseView {
        ByeResponseView { resp: self.resp.deep_view() }
    }
}

/// The server's first unit after connect.
#[derive(Debug, PartialEq, Eq, Clone)]
pub enum GreetingStatus {
    Okay(RespText),
    Preauth(RespText),
    Bye(ByeResponse),
}

pub ghost enum GreetingStatusView {
    Okay(RespTextView),
    Preauth(RespTextView),
    Bye(ByeResponseView),
}

impl DeepView for GreetingStatus {
    type V = GreetingStatusView;

    open spec fn deep_view(&self) -> GreetingStatusView {
        match self {
            GreetingStatus::Okay(t) => GreetingStatusView::Okay(t.deep_view()),
            GreetingStatus::Preauth(t) => GreetingStatusView::Preauth(t.deep_view()),
            GreetingStatus::Bye(b) => GreetingStatusView::Bye(b.deep_view()),
        }
    }
}

/// greeting: exactly one per connection, before anything else.
#[derive(Debug, PartialEq, Eq, Clone)]
pub struct Greeting {
    pub status: GreetingStatus,
}

pub ghost struct GreetingView {
    pub status: GreetingStatusView,
}

impl DeepView for Greeting {
    type V = GreetingView;

    open spec fn deep_view(&self) -> GreetingView {
        GreetingView { status: self.status.deep_view() }
    }
}

/// continue-req: a server prompt for more command data.
#[derive(Debug, PartialEq, Eq, Clone)]
pub enum ContinueReq {
    Text(RespText),
    Base64(Vec<u8>),
}

pub ghost enum ContinueReqView {
    Text(RespTextView),
    Base64(Seq<u8>),
}

impl DeepView for ContinueReq {
    type V = ContinueReqView;

    open spec fn deep_view(&self) -> ContinueReqView {
        match self {
            ContinueReq::Text(t) => ContinueReqView::Text(t.deep_view()),
            ContinueReq::Base64(v) => ContinueReqView::Base64(v.deep_view()),
        }
    }
}

/// response-tagged: the terminal completion of one command.
#[derive(Debug, PartialEq, Eq, Clone)]
pub struct TaggedResponse {
    pub tag: Tag,
    pub resp: RespCond,
}

pub ghost struct TaggedResponseView {
    pub tag: Tag,
    pub resp: RespCondView,
}

impl DeepView for TaggedResponse {
    type V = TaggedResponseView;

    open spec fn deep_view(&self) -> TaggedResponseView {
        TaggedResponseView { tag: self.tag, resp: self.resp.deep_view() }
    }
}

/// status-att value inside a `STATUS` response.
#[derive(Debug, PartialEq, Eq, Clone, Copy)]
pub enum StatusInfo {
    Messages(u32),
    Recent(u32),
    UidNext(u32),
    UidValidity(u32),
    Unseen(u32),
}

impl DeepView for StatusInfo {
    type V = StatusInfo;

    open spec fn deep_view(&self) -> StatusInfo {
        *self
    }
}

/// mailbox status data: the mailbox name and its attribute values.
#[derive(Debug, PartialEq, Eq, Clone)]
pub struct StatusResponse {
    pub name: Vec<u8>,
    pub status: Vec<StatusInfo>,
}

pub ghost struct StatusResponseView {
    pub name: Seq<u8>,
    pub status: Seq<StatusInfo>,
}

impl DeepView for StatusResponse {
    type V = StatusResponseView;

    open spec fn deep_view(&self) -> StatusResponseView {
        StatusResponseView { name: self.name.deep_view(), status: self.status.deep_view() }
    }
}

/// mailbox-data: the untagged mailbox information units.
#[derive(Debug, PartialEq, Eq, Clone)]
pub enum MailBoxData {
    Flags(Vec<Flag>),
    List(ListMailBox),
    Lsub(ListMailBox),
    Search(Vec<u32>),
    Status(StatusResponse),
    Exists(u32),
    Recent(u32),
}

pub ghost enum MailBoxDataView {
    Flags(Seq<FlagView>),
    List(ListMailBoxView),
    Lsub(ListMailBoxView),
    Search(Seq<u32>),
    Status(StatusResponseView),
    Exists(u32),
    Recent(u32),
}

impl DeepView for MailBoxData {
    type V = MailBoxDataView;

    open spec fn deep_view(&self) -> MailBoxDataView {
        match self {
            MailBoxData::Flags(v) => MailBoxDataView::Flags(v.deep_view()),
            MailBoxData::List(m) => MailBoxDataView::List(m.deep_view()),
            MailBoxData::Lsub(m) => MailBoxDataView::Lsub(m.deep_view()),
            MailBoxData::Search(v) => MailBoxDataView::Search(v.deep_view()),
            MailBoxData::Status(s) => MailBoxDataView::Status(s.deep_view()),
            MailBoxData::Exists(n) => MailBoxDataView::Exists(*n),
            MailBoxData::Recent(n) => MailBoxDataView::Recent(*n),
        }
    }
}

/// flag-fetch: a message flag or the fetch-only `\Recent` marker.
#[derive(Debug, PartialEq, Eq, Clone)]
pub enum MsgFlag {
    Common(Flag),
    Recent,
}

pub ghost enum MsgFlagView {
    Common(FlagView),
    Recent,
}

impl DeepView for MsgFlag {
    type V = MsgFlagView;

    open spec fn deep_view(&self) -> MsgFlagView {
        match self {
            MsgFlag::Common(f) => MsgFlagView::Common(f.deep_view()),
            MsgFlag::Recent => MsgFlagView::Recent,
        }
    }
}

/// address: one envelope address; every field is nil-able.
#[derive(Debug, PartialEq, Eq, Clone)]
pub struct Address {
    pub name: Option<Vec<u8>>,
    pub adl: Option<Vec<u8>>,
    pub mailbox: Option<Vec<u8>>,
    pub host: Option<Vec<u8>>,
}

pub ghost struct AddressView {
    pub name: Option<Seq<u8>>,
    pub adl: Option<Seq<u8>>,
    pub mailbox: Option<Seq<u8>>,
    pub host: Option<Seq<u8>>,
}

impl DeepView for Address {
    type V = AddressView;

    open spec fn deep_view(&self) -> AddressView {
        AddressView {
            name: self.name.deep_view(),
            adl: self.adl.deep_view(),
            mailbox: self.mailbox.deep_view(),
            host: self.host.deep_view(),
        }
    }
}

/// envelope: the message metadata fields, each individually nil-able.
#[derive(Debug, PartialEq, Eq, Clone)]
pub struct Envelope {
    pub date: Option<Vec<u8>>,
    pub subject: Option<Vec<u8>>,
    pub from: Option<Vec<Address>>,
    pub sender: Option<Vec<Address>>,
    pub reply_to: Option<Vec<Address>>,
    pub to: Option<Vec<Address>>,
    pub cc: Option<Vec<Address>>,
    pub bcc: Option<Vec<Address>>,
    pub in_reply_to: Option<Vec<u8>>,
    pub message_id: Option<Vec<u8>>,
}

pub ghost struct EnvelopeView {
    pub date: Option<Seq<u8>>,
    pub subject: Option<Seq<u8>>,
    pub from: Option<Seq<AddressView>>,
    pub sender: Option<Seq<AddressView>>,
    pub reply_to: Option<Seq<AddressView>>,
    pub to: Option<Seq<AddressView>>,
    pub cc: Option<Seq<AddressView>>,
    pub bcc: Option<Seq<AddressView>>,
    pub in_reply_to: Option<Seq<u8>>,
    pub message_id: Option<Seq<u8>>,
}

impl DeepView for Envelope {
    type V = EnvelopeView;

    open spec fn deep_view(&self) -> EnvelopeView {
        EnvelopeView {
            date: self.date.deep_view(),
            subject: self.subject.deep_view(),
            from: self.from.deep_view(),
            sender: self.sender.deep_view(),
            reply_to: self.reply_to.deep_view(),
            to: self.to.deep_view(),
            cc: self.cc.deep_view(),
            bcc: self.bcc.deep_view(),
            in_reply_to: self.in_reply_to.deep_view(),
            message_id: self.message_id.deep_view(),
        }
    }
}

/// time of day inside a date-time.
#[derive(Debug, PartialEq, Eq, Clone, Copy)]
pub struct Time {
    pub hours: u8,
    pub minutes: u8,
    pub seconds: u8,
}

impl DeepView for Time {
    type V = Time;

    open spec fn deep_view(&self) -> Time {
        *self
    }
}

/// Month names of the date-time grammar.
#[derive(Debug, PartialEq, Eq, Clone, Copy)]
pub enum Month {
    Jan,
    Feb,
    Mar,
    Apr,
    May,
    Jun,
    Jul,
    Aug,
    Sep,
    Oct,
    Nov,
    Dec,
}

impl DeepView for Month {
    type V = Month;

    open spec fn deep_view(&self) -> Month {
        *self
    }
}

/// date-time: day, month, year, time of day and a signed zone offset in
/// the `+-hhmm` wire form.
#[derive(Debug, PartialEq, Eq, Clone, Copy)]
pub struct DateTime {
    pub day: u8,
    pub month: Month,
    pub year: u16,
    pub time: Time,
    pub zone: i16,
}

impl DeepView for DateTime {
    type V = DateTime;

    open spec fn deep_view(&self) -> DateTime {
        *self
    }
}

/// msg-att: one fetched message attribute.
#[derive(Debug, PartialEq, Eq, Clone)]
pub enum MsgAtt {
    Envelope(Envelope),
    InternalDate(DateTime),
    Rfc822(Option<Vec<u8>>),
    Rfc822Header(Option<Vec<u8>>),
    Rfc822Text(Option<Vec<u8>>),
    Rfc822Size(u32),
    Flags(Vec<MsgFlag>),
}

pub ghost enum MsgAttView {
    Envelope(EnvelopeView),
    InternalDate(DateTime),
    Rfc822(Option<Seq<u8>>),
    Rfc822Header(Option<Seq<u8>>),
    Rfc822Text(Option<Seq<u8>>),
    Rfc822Size(u32),
    Flags(Seq<MsgFlagView>),
}

impl DeepView for MsgAtt {
    type V = MsgAttView;

    open spec fn deep_view(&self) -> MsgAttView {
        match self {
            MsgAtt::Envelope(e) => MsgAttView::Envelope(e.deep_view()),
            MsgAtt::InternalDate(d) => MsgAttView::InternalDate(*d),
            MsgAtt::Rfc822(v) => MsgAttView::Rfc822(v.deep_view()),
            MsgAtt::Rfc822Header(v) => MsgAttView::Rfc822Header(v.deep_view()),
            MsgAtt::Rfc822Text(v) => MsgAttView::Rfc822Text(v.deep_view()),
            MsgAtt::Rfc822Size(n) => MsgAttView::Rfc822Size(*n),
            MsgAtt::Flags(v) => MsgAttView::Flags(v.deep_view()),
        }
    }
}

/// message-data: an expunge notice or the attributes fetched for one
/// message, each carrying the message sequence number.
#[derive(Debug, PartialEq, Eq, Clone)]
pub enum MessageData {
    Expunge(u32),
    Fetch(u32, Vec<MsgAtt>),
}

pub ghost enum MessageDataView {
    Expunge(u32),
    Fetch(u32, Seq<MsgAttView>),
}

impl DeepView for MessageData {
    type V = MessageDataView;

    open spec fn deep_view(&self) -> MessageDataView {
        match self {
            MessageData::Expunge(n) => MessageDataView::Expunge(*n),
            MessageData::Fetch(n, atts) => MessageDataView::Fetch(*n, atts.deep_view()),
        }
    }
}

/// response-data: one untagged unit.
#[derive(Debug, PartialEq, Eq, Clone)]
pub enum UntaggedResponse {
    RespCond(RespCond),
    RespBye(ByeResponse),
    MailBox(MailBoxData),
    Message(MessageData),
    Capability(Vec<Capability>),
}

pub ghost enum UntaggedResponseView {
    RespCond(RespCondView),
    RespBye(ByeResponseView),
    MailBox(MailBoxDataView),
    Message(MessageDataView),
    Capability(Seq<CapabilityView>),
}

impl DeepView for UntaggedResponse {
    type V = UntaggedResponseView;

    open spec fn deep_view(&self) -> UntaggedResponseView {
        match self {
            UntaggedResponse::RespCond(c) => UntaggedResponseView::RespCond(c.deep_view()),
            UntaggedResponse::RespBye(b) => UntaggedResponseView::RespBye(b.deep_view()),
            UntaggedResponse::MailBox(m) => UntaggedResponseView::MailBox(m.deep_view()),
            UntaggedResponse::Message(m) => UntaggedResponseView::Message(m.deep_view()),
            UntaggedResponse::Capability(v) => UntaggedResponseView::Capability(v.deep_view()),
        }
    }
}

/// One decoded top-level unit.
#[derive(Debug, PartialEq, Eq, Clone)]
pub enum ImapResponse {
    Greeting(Greeting),
    Continue(ContinueReq),
    Untagged(UntaggedResponse),
    Response(TaggedResponse),
}

pub ghost enum ImapResponseView {
    Greeting(GreetingView),
    Continue(ContinueReqView),
    Untagged(UntaggedResponseView),
    Response(TaggedResponseView),
}

impl DeepView for ImapResponse {
    type V = ImapResponseView;

    open spec fn deep_view(&self) -> ImapResponseView {
        match self {
            ImapResponse::Greeting(g) => ImapResponseView::Greeting(g.deep_view()),
            ImapResponse::Continue(c) => ImapResponseView::Continue(c.deep_view()),
            ImapResponse::Untagged(u) => ImapResponseView::Untagged(u.deep_view()),
            ImapResponse::Response(t) => ImapResponseView::Response(t.deep_view()),
        }
    }
}

/// Media type of a basic body part.
#[derive(Debug, PartialEq, Eq, Clone)]
pub enum MediaType {
    Application,
    Audio,
    Image,
    Message,
    Video,
    Custom(Vec<u8>),
}

pub ghost enum MediaTypeView {
    Application,
    Audio,
    Image,
    Message,
    Video,
    Custom(Seq<u8>),
}

impl DeepView for MediaType {
    type V = MediaTypeView;

    open spec fn deep_view(&self) -> MediaTypeView {
        match self {
            MediaType::Application => MediaTypeView::Application,
            MediaType::Audio => MediaTypeView::Audio,
            MediaType::Image => MediaTypeView::Image,
            MediaType::Message => MediaTypeView::Message,
            MediaType::Video => MediaTypeView::Video,
            MediaType::Custom(v) => MediaTypeView::Custom(v.deep_view()),
        }
    }
}

/// media-basic: type and subtype.
#[derive(Debug, PartialEq, Eq, Clone)]
pub struct MediaBasic {
    pub media_type: MediaType,
    pub subtype: Vec<u8>,
}

pub ghost struct MediaBasicView {
    pub media_type: MediaTypeView,
    pub subtype: Seq<u8>,
}

impl DeepView for MediaBasic {
    type V = MediaBasicView;

    open spec fn deep_view(&self) -> MediaBasicView {
        MediaBasicView { media_type: self.media_type.deep_view(), subtype: self.subtype.deep_view() }
    }
}

/// body-fld-enc: content transfer encoding.
#[derive(Debug, PartialEq, Eq, Clone)]
pub enum BodyEnc {
    N7bit,
    N8bit,
    Binary,
    Base64,
    QuotedPrintable,
    Custom(Vec<u8>),
}

pub ghost enum BodyEncView {
    N7bit,
    N8bit,
    Binary,
    Base64,
    QuotedPrintable,
    Custom(Seq<u8>),
}

impl DeepView for BodyEnc {
    type V = BodyEncView;

    open spec fn deep_view(&self) -> BodyEncView {
        match self {
            BodyEnc::N7bit => BodyEncView::N7bit,
            BodyEnc::N8bit => BodyEncView::N8bit,
            BodyEnc::Binary => BodyEncView::Binary,
            BodyEnc::Base64 => BodyEncView::Base64,
            BodyEnc::QuotedPrintable => BodyEncView::QuotedPrintable,
            BodyEnc::Custom(v) => BodyEncView::Custom(v.deep_view()),
        }
    }
}

/// body-fields: the fields common to every body part.
#[derive(Debug, PartialEq, Eq, Clone)]
pub struct BodyFields {
    pub param: Option<Vec<(Vec<u8>, Vec<u8>)>>,
    pub id: Option<Vec<u8>>,
    pub desc: Option<Vec<u8>>,
    pub enc: BodyEnc,
    pub octets: u32,
}

pub ghost struct BodyFieldsView {
    pub param: Option<Seq<(Seq<u8>, Seq<u8>)>>,
    pub id: Option<Seq<u8>>,
    pub desc: Option<Seq<u8>>,
    pub enc: BodyEncView,
    pub octets: u32,
}

impl DeepView for BodyFields {
    type V = BodyFieldsView;

    open spec fn deep_view(&self) -> BodyFieldsView {
        BodyFieldsView {
            param: self.param.deep_view(),
            id: self.id.deep_view(),
            desc: self.desc.deep_view(),
            enc: self.enc.deep_view(),
            octets: self.octets,
        }
    }
}

/// body-type-basic: media information and fields.
#[derive(Debug, PartialEq, Eq, Clone)]
pub struct BodyTypeBasic {
    pub media: MediaBasic,
    pub fields: BodyFields,
}

pub ghost struct BodyTypeBasicView {
    pub media: MediaBasicView,
    pub fields: BodyFieldsView,
}

impl DeepView for BodyTypeBasic {
    type V = BodyTypeBasicView;

    open spec fn deep_view(&self) -> BodyTypeBasicView {
        BodyTypeBasicView { media: self.media.deep_view(), fields: self.fields.deep_view() }
    }
}

/// body-type-text: a text part with its line count.
#[derive(Debug, PartialEq, Eq, Clone)]
pub struct BodyTypeText {
    pub subtype: Vec<u8>,
    pub fields: BodyFields,
    pub lines: u32,
}

pub ghost struct BodyTypeTextView {
    pub subtype: Seq<u8>,
    pub fields: BodyFieldsView,
    pub lines: u32,
}

impl DeepView for BodyTypeText {
    type V = BodyTypeTextView;

    open spec fn deep_view(&self) -> BodyTypeTextView {
        BodyTypeTextView {
            subtype: self.subtype.deep_view(),
            fields: self.fields.deep_view(),
            lines: self.lines,
        }
    }
}

/// The non-nesting body alternatives allowed inside an encapsulated
/// `MESSAGE/RFC822` part. Body-structure coverage is intentionally
/// partial: deeper nesting is out of scope.
#[derive(Debug, PartialEq, Eq, Clone)]
pub enum BodyLeaf {
    Basic(BodyTypeBasic),
    Text(BodyTypeText),
}

pub ghost enum BodyLeafView {
    Basic(BodyTypeBasicView),
    Text(BodyTypeTextView),
}

impl DeepView for BodyLeaf {
    type V = BodyLeafView;

    open spec fn deep_view(&self) -> BodyLeafView {
        match self {
            BodyLeaf::Basic(b) => BodyLeafView::Basic(b.deep_view()),
            BodyLeaf::Text(t) => BodyLeafView::Text(t.deep_view()),
        }
    }
}

/// body-type-msg: an encapsulated `MESSAGE/RFC822` part.
#[derive(Debug, PartialEq, Eq, Clone)]
pub struct BodyTypeMsg {
    pub fields: BodyFields,
    pub envelope: Envelope,
    pub body: BodyLeaf,
    pub lines: u32,
}

pub ghost struct BodyTypeMsgView {
    pub fields: BodyFieldsView,
    pub envelope: EnvelopeView,
    pub body: BodyLeafView,
    pub lines: u32,
}

impl DeepView for BodyTypeMsg {
    type V = BodyTypeMsgView;

    open spec fn deep_view(&self) -> BodyTypeMsgView {
        BodyTypeMsgView {
            fields: self.fields.deep_view(),
            envelope: self.envelope.deep_view(),
            body: self.body.deep_view(),
            lines: self.lines,
        }
    }
}

/// body: one single-part body structure.
#[derive(Debug, PartialEq, Eq, Clone)]
pub enum Body {
    Basic(BodyTypeBasic),
    Msg(BodyTypeMsg),
    Text(BodyTypeText),
}

pub ghost enum BodyView {
    Basic(BodyTypeBasicView),
    Msg(BodyTypeMsgView),
    Text(BodyTypeTextView),
}

impl DeepView for Body {
    type V = BodyView;

    open spec fn deep_view(&self) -> BodyView {
        match self {
            Body::Basic(b) => BodyView::Basic(b.deep_view()),
            Body::Msg(m) => BodyView::Msg(m.deep_view()),
            Body::Text(t) => BodyView::Text(t.deep_view()),
        }
    }
}

} // verus!
