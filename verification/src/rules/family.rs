//! Action families: their stable names, phases, and resolution policies, and compact sets of them.
use crate::rules::action::{delete_operation_applies_in, delete_phase, Action, BodyOp, DeleteOp, Phase};
use crate::text::{
    chars_of, has_prefix, lower_chars, lower_seq, push_char, seq_eq, slice_vec, starts_with, trim,
    trim_chars,
};
use vstd::prelude::*;

verus! {

/// Resolution behavior shared by every action in one family.
#[derive(Clone, Copy, Debug, PartialEq, Eq, Structural)]
pub enum ResolutionPolicy {
    /// Only the first applicable action is retained.
    FirstWins,
    /// Every applicable action is retained in resolution order.
    Stackable,
}

/// Phases in which a family can have an effect.
#[derive(Clone, Copy, Debug, PartialEq, Eq, Structural)]
pub enum FamilyPhases {
    Request,
    Response,
    Both,
}

/// Stable typed identity of an action family.
#[derive(Clone, Copy, Debug, PartialEq, Eq, PartialOrd, Ord, Hash, Structural)]
pub enum ActionFamily {
    /// The `host` action family.
    Host,
    /// The `upstream` action family.
    Upstream,
    /// The `direct` action family.
    Direct,
    /// The `mock` action family.
    Mock,
    /// The `map.remote` action family.
    MapRemote,
    /// The `status` action family.
    Status,
    /// The `redirect` action family.
    Redirect,
    /// The `req.header` action family.
    ReqHeader,
    /// The `res.header` action family.
    ResHeader,
    /// The `res.status` action family.
    ResStatus,
    /// The `req.method` action family.
    ReqMethod,
    /// The `req.cookie` action family.
    ReqCookie,
    /// The `res.cookie` action family.
    ResCookie,
    /// The `req.ua` action family.
    ReqUa,
    /// The `req.referer` action family.
    ReqReferer,
    /// The `req.auth` action family.
    ReqAuth,
    /// The `req.forwarded` action family.
    ReqForwarded,
    /// The `req.type` action family.
    ReqType,
    /// The `req.charset` action family.
    ReqCharset,
    /// The `res.cors` action family.
    ResCors,
    /// The `res.type` action family.
    ResType,
    /// The `res.charset` action family.
    ResCharset,
    /// The `res.merge` action family.
    ResMerge,
    /// The `res.trailer` action family.
    ResTrailer,
    /// The `attachment` action family.
    Attachment,
    /// The `cache` action family.
    Cache,
    /// The `tls` action family.
    Tls,
    /// The `url.rewrite` action family.
    UrlRewrite,
    /// The `url.query` action family.
    UrlQuery,
    /// The `delete` action family.
    Delete,
    /// The `req.body.set` action family.
    ReqBodySet,
    /// The `req.body.prepend` action family.
    ReqBodyPrepend,
    /// The `req.body.append` action family.
    ReqBodyAppend,
    /// The `req.body.replace` action family.
    ReqBodyReplace,
    /// The `res.body.set` action family.
    ResBodySet,
    /// The `res.body.prepend` action family.
    ResBodyPrepend,
    /// The `res.body.append` action family.
    ResBodyAppend,
    /// The `res.body.replace` action family.
    ResBodyReplace,
    /// The `inject` action family.
    Inject,
    /// The `delay.req` action family.
    DelayReq,
    /// The `delay.res` action family.
    DelayRes,
    /// The `throttle.req` action family.
    ThrottleReq,
    /// The `throttle.res` action family.
    ThrottleRes,
    /// The `bypass` action family.
    Bypass,
    /// The `hide` action family.
    Hide,
    /// The `tag` action family.
    Tag,
    /// The `skip` action family.
    Skip,
}

/// Number of action families.
pub const FAMILY_COUNT: usize = 47;

impl ActionFamily {
    /// Position of this family in stable language order.
    pub open spec fn index(self) -> nat {
        match self {
            ActionFamily::Host => 0,
            ActionFamily::Upstream => 1,
            ActionFamily::Direct => 2,
            ActionFamily::Mock => 3,
            ActionFamily::MapRemote => 4,
            ActionFamily::Status => 5,
            ActionFamily::Redirect => 6,
            ActionFamily::ReqHeader => 7,
            ActionFamily::ResHeader => 8,
            ActionFamily::ResStatus => 9,
            ActionFamily::ReqMethod => 10,
            ActionFamily::ReqCookie => 11,
            ActionFamily::ResCookie => 12,
            ActionFamily::ReqUa => 13,
            ActionFamily::ReqReferer => 14,
            ActionFamily::ReqAuth => 15,
            ActionFamily::ReqForwarded => 16,
            ActionFamily::ReqType => 17,
            ActionFamily::ReqCharset => 18,
            ActionFamily::ResCors => 19,
            ActionFamily::ResType => 20,
            ActionFamily::ResCharset => 21,
            ActionFamily::ResMerge => 22,
            ActionFamily::ResTrailer => 23,
            ActionFamily::Attachment => 24,
            ActionFamily::Cache => 25,
            ActionFamily::Tls => 26,
            ActionFamily::UrlRewrite => 27,
            ActionFamily::UrlQuery => 28,
            ActionFamily::Delete => 29,
            ActionFamily::ReqBodySet => 30,
            ActionFamily::ReqBodyPrepend => 31,
            ActionFamily::ReqBodyAppend => 32,
            ActionFamily::ReqBodyReplace => 33,
            ActionFamily::ResBodySet => 34,
            ActionFamily::ResBodyPrepend => 35,
            ActionFamily::ResBodyAppend => 36,
            ActionFamily::ResBodyReplace => 37,
            ActionFamily::Inject => 38,
            ActionFamily::DelayReq => 39,
            ActionFamily::DelayRes => 40,
            ActionFamily::ThrottleReq => 41,
            ActionFamily::ThrottleRes => 42,
            ActionFamily::Bypass => 43,
            ActionFamily::Hide => 44,
            ActionFamily::Tag => 45,
            ActionFamily::Skip => 46,
        }
    }

    /// The stable dotted family identifier.
    pub open spec fn name(self) -> Seq<char> {
        match self {
            ActionFamily::Host => "host"@,
            ActionFamily::Upstream => "upstream"@,
            ActionFamily::Direct => "direct"@,
            ActionFamily::Mock => "mock"@,
            ActionFamily::MapRemote => "map.remote"@,
            ActionFamily::Status => "status"@,
            ActionFamily::Redirect => "redirect"@,
            ActionFamily::ReqHeader => "req.header"@,
            ActionFamily::ResHeader => "res.header"@,
            ActionFamily::ResStatus => "res.status"@,
            ActionFamily::ReqMethod => "req.method"@,
            ActionFamily::ReqCookie => "req.cookie"@,
            ActionFamily::ResCookie => "res.cookie"@,
            ActionFamily::ReqUa => "req.ua"@,
            ActionFamily::ReqReferer => "req.referer"@,
            ActionFamily::ReqAuth => "req.auth"@,
            ActionFamily::ReqForwarded => "req.forwarded"@,
            ActionFamily::ReqType => "req.type"@,
            ActionFamily::ReqCharset => "req.charset"@,
            ActionFamily::ResCors => "res.cors"@,
            ActionFamily::ResType => "res.type"@,
            ActionFamily::ResCharset => "res.charset"@,
            ActionFamily::ResMerge => "res.merge"@,
            ActionFamily::ResTrailer => "res.trailer"@,
            ActionFamily::Attachment => "attachment"@,
            ActionFamily::Cache => "cache"@,
            ActionFamily::Tls => "tls"@,
            ActionFamily::UrlRewrite => "url.rewrite"@,
            ActionFamily::UrlQuery => "url.query"@,
            ActionFamily::Delete => "delete"@,
            ActionFamily::ReqBodySet => "req.body.set"@,
            ActionFamily::ReqBodyPrepend => "req.body.prepend"@,
            ActionFamily::ReqBodyAppend => "req.body.append"@,
            ActionFamily::ReqBodyReplace => "req.body.replace"@,
            ActionFamily::ResBodySet => "res.body.set"@,
            ActionFamily::ResBodyPrepend => "res.body.prepend"@,
            ActionFamily::ResBodyAppend => "res.body.append"@,
            ActionFamily::ResBodyReplace => "res.body.replace"@,
            ActionFamily::Inject => "inject"@,
            ActionFamily::DelayReq => "delay.req"@,
            ActionFamily::DelayRes => "delay.res"@,
            ActionFamily::ThrottleReq => "throttle.req"@,
            ActionFamily::ThrottleRes => "throttle.res"@,
            ActionFamily::Bypass => "bypass"@,
            ActionFamily::Hide => "hide"@,
            ActionFamily::Tag => "tag"@,
            ActionFamily::Skip => "skip"@,
        }
    }

    /// The phases in which this family can have an effect.
    pub open spec fn phase_set(self) -> FamilyPhases {
        match self {
            ActionFamily::Host => FamilyPhases::Request,
            ActionFamily::Upstream => FamilyPhases::Request,
            ActionFamily::Direct => FamilyPhases::Request,
            ActionFamily::Mock => FamilyPhases::Request,
            ActionFamily::MapRemote => FamilyPhases::Request,
            ActionFamily::Status => FamilyPhases::Request,
            ActionFamily::Redirect => FamilyPhases::Request,
            ActionFamily::ReqHeader => FamilyPhases::Request,
            ActionFamily::ResHeader => FamilyPhases::Response,
            ActionFamily::ResStatus => FamilyPhases::Response,
            ActionFamily::ReqMethod => FamilyPhases::Request,
            ActionFamily::ReqCookie => FamilyPhases::Request,
            ActionFamily::ResCookie => FamilyPhases::Response,
            ActionFamily::ReqUa => FamilyPhases::Request,
            ActionFamily::ReqReferer => FamilyPhases::Request,
            ActionFamily::ReqAuth => FamilyPhases::Request,
            ActionFamily::ReqForwarded => FamilyPhases::Request,
            ActionFamily::ReqType => FamilyPhases::Request,
            ActionFamily::ReqCharset => FamilyPhases::Request,
            ActionFamily::ResCors => FamilyPhases::Response,
            ActionFamily::ResType => FamilyPhases::Response,
            ActionFamily::ResCharset => FamilyPhases::Response,
            ActionFamily::ResMerge => FamilyPhases::Response,
            ActionFamily::ResTrailer => FamilyPhases::Response,
            ActionFamily::Attachment => FamilyPhases::Response,
            ActionFamily::Cache => FamilyPhases::Response,
            ActionFamily::Tls => FamilyPhases::Request,
            ActionFamily::UrlRewrite => FamilyPhases::Request,
            ActionFamily::UrlQuery => FamilyPhases::Request,
            ActionFamily::Delete => FamilyPhases::Both,
            ActionFamily::ReqBodySet => FamilyPhases::Request,
            ActionFamily::ReqBodyPrepend => FamilyPhases::Request,
            ActionFamily::ReqBodyAppend => FamilyPhases::Request,
            ActionFamily::ReqBodyReplace => FamilyPhases::Request,
            ActionFamily::ResBodySet => FamilyPhases::Response,
            ActionFamily::ResBodyPrepend => FamilyPhases::Response,
            ActionFamily::ResBodyAppend => FamilyPhases::Response,
            ActionFamily::ResBodyReplace => FamilyPhases::Response,
            ActionFamily::Inject => FamilyPhases::Response,
            ActionFamily::DelayReq => FamilyPhases::Request,
            ActionFamily::DelayRes => FamilyPhases::Response,
            ActionFamily::ThrottleReq => FamilyPhases::Request,
            ActionFamily::ThrottleRes => FamilyPhases::Response,
            ActionFamily::Bypass => FamilyPhases::Request,
            ActionFamily::Hide => FamilyPhases::Both,
            ActionFamily::Tag => FamilyPhases::Both,
            ActionFamily::Skip => FamilyPhases::Both,
        }
    }

    /// The family's resolution policy.
    pub open spec fn policy(self) -> ResolutionPolicy {
        match self {
            ActionFamily::Host => ResolutionPolicy::FirstWins,
            ActionFamily::Upstream => ResolutionPolicy::FirstWins,
            ActionFamily::Direct => ResolutionPolicy::FirstWins,
            ActionFamily::Mock => ResolutionPolicy::FirstWins,
            ActionFamily::MapRemote => ResolutionPolicy::FirstWins,
            ActionFamily::Status => ResolutionPolicy::FirstWins,
            ActionFamily::Redirect => ResolutionPolicy::FirstWins,
            ActionFamily::ReqHeader => ResolutionPolicy::Stackable,
            ActionFamily::ResHeader => ResolutionPolicy::Stackable,
            ActionFamily::ResStatus => ResolutionPolicy::FirstWins,
            ActionFamily::ReqMethod => ResolutionPolicy::FirstWins,
            ActionFamily::ReqCookie => ResolutionPolicy::Stackable,
            ActionFamily::ResCookie => ResolutionPolicy::Stackable,
            ActionFamily::ReqUa => ResolutionPolicy::FirstWins,
            ActionFamily::ReqReferer => ResolutionPolicy::FirstWins,
            ActionFamily::ReqAuth => ResolutionPolicy::FirstWins,
            ActionFamily::ReqForwarded => ResolutionPolicy::FirstWins,
            ActionFamily::ReqType => ResolutionPolicy::FirstWins,
            ActionFamily::ReqCharset => ResolutionPolicy::FirstWins,
            ActionFamily::ResCors => ResolutionPolicy::FirstWins,
            ActionFamily::ResType => ResolutionPolicy::FirstWins,
            ActionFamily::ResCharset => ResolutionPolicy::FirstWins,
            ActionFamily::ResMerge => ResolutionPolicy::Stackable,
            ActionFamily::ResTrailer => ResolutionPolicy::Stackable,
            ActionFamily::Attachment => ResolutionPolicy::FirstWins,
            ActionFamily::Cache => ResolutionPolicy::FirstWins,
            ActionFamily::Tls => ResolutionPolicy::FirstWins,
            ActionFamily::UrlRewrite => ResolutionPolicy::FirstWins,
            ActionFamily::UrlQuery => ResolutionPolicy::Stackable,
            ActionFamily::Delete => ResolutionPolicy::Stackable,
            ActionFamily::ReqBodySet => ResolutionPolicy::Stackable,
            ActionFamily::ReqBodyPrepend => ResolutionPolicy::Stackable,
            ActionFamily::ReqBodyAppend => ResolutionPolicy::Stackable,
            ActionFamily::ReqBodyReplace => ResolutionPolicy::Stackable,
            ActionFamily::ResBodySet => ResolutionPolicy::Stackable,
            ActionFamily::ResBodyPrepend => ResolutionPolicy::Stackable,
            ActionFamily::ResBodyAppend => ResolutionPolicy::Stackable,
            ActionFamily::ResBodyReplace => ResolutionPolicy::Stackable,
            ActionFamily::Inject => ResolutionPolicy::Stackable,
            ActionFamily::DelayReq => ResolutionPolicy::FirstWins,
            ActionFamily::DelayRes => ResolutionPolicy::FirstWins,
            ActionFamily::ThrottleReq => ResolutionPolicy::FirstWins,
            ActionFamily::ThrottleRes => ResolutionPolicy::FirstWins,
            ActionFamily::Bypass => ResolutionPolicy::FirstWins,
            ActionFamily::Hide => ResolutionPolicy::FirstWins,
            ActionFamily::Tag => ResolutionPolicy::Stackable,
            ActionFamily::Skip => ResolutionPolicy::Stackable,
        }
    }

    /// Returns the stable dotted family identifier used by diagnostics and help.
    pub fn as_str(self) -> (r: &'static str)
        ensures
            r@ == self.name(),
    {
        match self {
            ActionFamily::Host => "host",
            ActionFamily::Upstream => "upstream",
            ActionFamily::Direct => "direct",
            ActionFamily::Mock => "mock",
            ActionFamily::MapRemote => "map.remote",
            ActionFamily::Status => "status",
            ActionFamily::Redirect => "redirect",
            ActionFamily::ReqHeader => "req.header",
            ActionFamily::ResHeader => "res.header",
            ActionFamily::ResStatus => "res.status",
            ActionFamily::ReqMethod => "req.method",
            ActionFamily::ReqCookie => "req.cookie",
            ActionFamily::ResCookie => "res.cookie",
            ActionFamily::ReqUa => "req.ua",
            ActionFamily::ReqReferer => "req.referer",
            ActionFamily::ReqAuth => "req.auth",
            ActionFamily::ReqForwarded => "req.forwarded",
            ActionFamily::ReqType => "req.type",
            ActionFamily::ReqCharset => "req.charset",
            ActionFamily::ResCors => "res.cors",
            ActionFamily::ResType => "res.type",
            ActionFamily::ResCharset => "res.charset",
            ActionFamily::ResMerge => "res.merge",
            ActionFamily::ResTrailer => "res.trailer",
            ActionFamily::Attachment => "attachment",
            ActionFamily::Cache => "cache",
            ActionFamily::Tls => "tls",
            ActionFamily::UrlRewrite => "url.rewrite",
            ActionFamily::UrlQuery => "url.query",
            ActionFamily::Delete => "delete",
            ActionFamily::ReqBodySet => "req.body.set",
            ActionFamily::ReqBodyPrepend => "req.body.prepend",
            ActionFamily::ReqBodyAppend => "req.body.append",
            ActionFamily::ReqBodyReplace => "req.body.replace",
            ActionFamily::ResBodySet => "res.body.set",
            ActionFamily::ResBodyPrepend => "res.body.prepend",
            ActionFamily::ResBodyAppend => "res.body.append",
            ActionFamily::ResBodyReplace => "res.body.replace",
            ActionFamily::Inject => "inject",
            ActionFamily::DelayReq => "delay.req",
            ActionFamily::DelayRes => "delay.res",
            ActionFamily::ThrottleReq => "throttle.req",
            ActionFamily::ThrottleRes => "throttle.res",
            ActionFamily::Bypass => "bypass",
            ActionFamily::Hide => "hide",
            ActionFamily::Tag => "tag",
            ActionFamily::Skip => "skip",
        }
    }

    /// Returns the phases in which this family can have an effect, in request-then-response order.
    pub fn phases(self) -> (r: Vec<Phase>)
        ensures
            r@ == phase_list(self.phase_set()),
    {
        match self {
            ActionFamily::Host => vec![Phase::Req],
            ActionFamily::Upstream => vec![Phase::Req],
            ActionFamily::Direct => vec![Phase::Req],
            ActionFamily::Mock => vec![Phase::Req],
            ActionFamily::MapRemote => vec![Phase::Req],
            ActionFamily::Status => vec![Phase::Req],
            ActionFamily::Redirect => vec![Phase::Req],
            ActionFamily::ReqHeader => vec![Phase::Req],
            ActionFamily::ResHeader => vec![Phase::Res],
            ActionFamily::ResStatus => vec![Phase::Res],
            ActionFamily::ReqMethod => vec![Phase::Req],
            ActionFamily::ReqCookie => vec![Phase::Req],
            ActionFamily::ResCookie => vec![Phase::Res],
            ActionFamily::ReqUa => vec![Phase::Req],
            ActionFamily::ReqReferer => vec![Phase::Req],
            ActionFamily::ReqAuth => vec![Phase::Req],
            ActionFamily::ReqForwarded => vec![Phase::Req],
            ActionFamily::ReqType => vec![Phase::Req],
            ActionFamily::ReqCharset => vec![Phase::Req],
            ActionFamily::ResCors => vec![Phase::Res],
            ActionFamily::ResType => vec![Phase::Res],
            ActionFamily::ResCharset => vec![Phase::Res],
            ActionFamily::ResMerge => vec![Phase::Res],
            ActionFamily::ResTrailer => vec![Phase::Res],
            ActionFamily::Attachment => vec![Phase::Res],
            ActionFamily::Cache => vec![Phase::Res],
            ActionFamily::Tls => vec![Phase::Req],
            ActionFamily::UrlRewrite => vec![Phase::Req],
            ActionFamily::UrlQuery => vec![Phase::Req],
            ActionFamily::Delete => vec![Phase::Req, Phase::Res],
            ActionFamily::ReqBodySet => vec![Phase::Req],
            ActionFamily::ReqBodyPrepend => vec![Phase::Req],
            ActionFamily::ReqBodyAppend => vec![Phase::Req],
            ActionFamily::ReqBodyReplace => vec![Phase::Req],
            ActionFamily::ResBodySet => vec![Phase::Res],
            ActionFamily::ResBodyPrepend => vec![Phase::Res],
            ActionFamily::ResBodyAppend => vec![Phase::Res],
            ActionFamily::ResBodyReplace => vec![Phase::Res],
            ActionFamily::Inject => vec![Phase::Res],
            ActionFamily::DelayReq => vec![Phase::Req],
            ActionFamily::DelayRes => vec![Phase::Res],
            ActionFamily::ThrottleReq => vec![Phase::Req],
            ActionFamily::ThrottleRes => vec![Phase::Res],
            ActionFamily::Bypass => vec![Phase::Req],
            ActionFamily::Hide => vec![Phase::Req, Phase::Res],
            ActionFamily::Tag => vec![Phase::Req, Phase::Res],
            ActionFamily::Skip => vec![Phase::Req, Phase::Res],
        }
    }

    /// Returns the family's first-wins or stackable resolution policy.
    pub fn resolution(self) -> (r: ResolutionPolicy)
        ensures
            r == self.policy(),
    {
        match self {
            ActionFamily::Host => ResolutionPolicy::FirstWins,
            ActionFamily::Upstream => ResolutionPolicy::FirstWins,
            ActionFamily::Direct => ResolutionPolicy::FirstWins,
            ActionFamily::Mock => ResolutionPolicy::FirstWins,
            ActionFamily::MapRemote => ResolutionPolicy::FirstWins,
            ActionFamily::Status => ResolutionPolicy::FirstWins,
            ActionFamily::Redirect => ResolutionPolicy::FirstWins,
            ActionFamily::ReqHeader => ResolutionPolicy::Stackable,
            ActionFamily::ResHeader => ResolutionPolicy::Stackable,
            ActionFamily::ResStatus => ResolutionPolicy::FirstWins,
            ActionFamily::ReqMethod => ResolutionPolicy::FirstWins,
            ActionFamily::ReqCookie => ResolutionPolicy::Stackable,
            ActionFamily::ResCookie => ResolutionPolicy::Stackable,
            ActionFamily::ReqUa => ResolutionPolicy::FirstWins,
            ActionFamily::ReqReferer => ResolutionPolicy::FirstWins,
            ActionFamily::ReqAuth => ResolutionPolicy::FirstWins,
            ActionFamily::ReqForwarded => ResolutionPolicy::FirstWins,
            ActionFamily::ReqType => ResolutionPolicy::FirstWins,
            ActionFamily::ReqCharset => ResolutionPolicy::FirstWins,
            ActionFamily::ResCors => ResolutionPolicy::FirstWins,
            ActionFamily::ResType => ResolutionPolicy::FirstWins,
            ActionFamily::ResCharset => ResolutionPolicy::FirstWins,
            ActionFamily::ResMerge => ResolutionPolicy::Stackable,
            ActionFamily::ResTrailer => ResolutionPolicy::Stackable,
            ActionFamily::Attachment => ResolutionPolicy::FirstWins,
            ActionFamily::Cache => ResolutionPolicy::FirstWins,
            ActionFamily::Tls => ResolutionPolicy::FirstWins,
            ActionFamily::UrlRewrite => ResolutionPolicy::FirstWins,
            ActionFamily::UrlQuery => ResolutionPolicy::Stackable,
            ActionFamily::Delete => ResolutionPolicy::Stackable,
            ActionFamily::ReqBodySet => ResolutionPolicy::Stackable,
            ActionFamily::ReqBodyPrepend => ResolutionPolicy::Stackable,
            ActionFamily::ReqBodyAppend => ResolutionPolicy::Stackable,
            ActionFamily::ReqBodyReplace => ResolutionPolicy::Stackable,
            ActionFamily::ResBodySet => ResolutionPolicy::Stackable,
            ActionFamily::ResBodyPrepend => ResolutionPolicy::Stackable,
            ActionFamily::ResBodyAppend => ResolutionPolicy::Stackable,
            ActionFamily::ResBodyReplace => ResolutionPolicy::Stackable,
            ActionFamily::Inject => ResolutionPolicy::Stackable,
            ActionFamily::DelayReq => ResolutionPolicy::FirstWins,
            ActionFamily::DelayRes => ResolutionPolicy::FirstWins,
            ActionFamily::ThrottleReq => ResolutionPolicy::FirstWins,
            ActionFamily::ThrottleRes => ResolutionPolicy::FirstWins,
            ActionFamily::Bypass => ResolutionPolicy::FirstWins,
            ActionFamily::Hide => ResolutionPolicy::FirstWins,
            ActionFamily::Tag => ResolutionPolicy::Stackable,
            ActionFamily::Skip => ResolutionPolicy::Stackable,
        }
    }

    /// The position of this family in stable language order.
    pub fn position(self) -> (r: usize)
        ensures
            r == self.index(),
            r < FAMILY_COUNT,
    {
        match self {
            ActionFamily::Host => 0,
            ActionFamily::Upstream => 1,
            ActionFamily::Direct => 2,
            ActionFamily::Mock => 3,
            ActionFamily::MapRemote => 4,
            ActionFamily::Status => 5,
            ActionFamily::Redirect => 6,
            ActionFamily::ReqHeader => 7,
            ActionFamily::ResHeader => 8,
            ActionFamily::ResStatus => 9,
            ActionFamily::ReqMethod => 10,
            ActionFamily::ReqCookie => 11,
            ActionFamily::ResCookie => 12,
            ActionFamily::ReqUa => 13,
            ActionFamily::ReqReferer => 14,
            ActionFamily::ReqAuth => 15,
            ActionFamily::ReqForwarded => 16,
            ActionFamily::ReqType => 17,
            ActionFamily::ReqCharset => 18,
            ActionFamily::ResCors => 19,
            ActionFamily::ResType => 20,
            ActionFamily::ResCharset => 21,
            ActionFamily::ResMerge => 22,
            ActionFamily::ResTrailer => 23,
            ActionFamily::Attachment => 24,
            ActionFamily::Cache => 25,
            ActionFamily::Tls => 26,
            ActionFamily::UrlRewrite => 27,
            ActionFamily::UrlQuery => 28,
            ActionFamily::Delete => 29,
            ActionFamily::ReqBodySet => 30,
            ActionFamily::ReqBodyPrepend => 31,
            ActionFamily::ReqBodyAppend => 32,
            ActionFamily::ReqBodyReplace => 33,
            ActionFamily::ResBodySet => 34,
            ActionFamily::ResBodyPrepend => 35,
            ActionFamily::ResBodyAppend => 36,
            ActionFamily::ResBodyReplace => 37,
            ActionFamily::Inject => 38,
            ActionFamily::DelayReq => 39,
            ActionFamily::DelayRes => 40,
            ActionFamily::ThrottleReq => 41,
            ActionFamily::ThrottleRes => 42,
            ActionFamily::Bypass => 43,
            ActionFamily::Hide => 44,
            ActionFamily::Tag => 45,
            ActionFamily::Skip => 46,
        }
    }
}

/// Every action family in stable language order.
pub open spec fn all_families() -> Seq<ActionFamily> {
    seq![
        ActionFamily::Host,
        ActionFamily::Upstream,
        ActionFamily::Direct,
        ActionFamily::Mock,
        ActionFamily::MapRemote,
        ActionFamily::Status,
        ActionFamily::Redirect,
        ActionFamily::ReqHeader,
        ActionFamily::ResHeader,
        ActionFamily::ResStatus,
        ActionFamily::ReqMethod,
        ActionFamily::ReqCookie,
        ActionFamily::ResCookie,
        ActionFamily::ReqUa,
        ActionFamily::ReqReferer,
        ActionFamily::ReqAuth,
        ActionFamily::ReqForwarded,
        ActionFamily::ReqType,
        ActionFamily::ReqCharset,
        ActionFamily::ResCors,
        ActionFamily::ResType,
        ActionFamily::ResCharset,
        ActionFamily::ResMerge,
        ActionFamily::ResTrailer,
        ActionFamily::Attachment,
        ActionFamily::Cache,
        ActionFamily::Tls,
        ActionFamily::UrlRewrite,
        ActionFamily::UrlQuery,
        ActionFamily::Delete,
        ActionFamily::ReqBodySet,
        ActionFamily::ReqBodyPrepend,
        ActionFamily::ReqBodyAppend,
        ActionFamily::ReqBodyReplace,
        ActionFamily::ResBodySet,
        ActionFamily::ResBodyPrepend,
        ActionFamily::ResBodyAppend,
        ActionFamily::ResBodyReplace,
        ActionFamily::Inject,
        ActionFamily::DelayReq,
        ActionFamily::DelayRes,
        ActionFamily::ThrottleReq,
        ActionFamily::ThrottleRes,
        ActionFamily::Bypass,
        ActionFamily::Hide,
        ActionFamily::Tag,
        ActionFamily::Skip,
    ]
}

/// Returns every action family in stable language order.
pub fn families() -> (r: Vec<ActionFamily>)
    ensures
        r@ == all_families(),
{
    vec![
        ActionFamily::Host,
        ActionFamily::Upstream,
        ActionFamily::Direct,
        ActionFamily::Mock,
        ActionFamily::MapRemote,
        ActionFamily::Status,
        ActionFamily::Redirect,
        ActionFamily::ReqHeader,
        ActionFamily::ResHeader,
        ActionFamily::ResStatus,
        ActionFamily::ReqMethod,
        ActionFamily::ReqCookie,
        ActionFamily::ResCookie,
        ActionFamily::ReqUa,
        ActionFamily::ReqReferer,
        ActionFamily::ReqAuth,
        ActionFamily::ReqForwarded,
        ActionFamily::ReqType,
        ActionFamily::ReqCharset,
        ActionFamily::ResCors,
        ActionFamily::ResType,
        ActionFamily::ResCharset,
        ActionFamily::ResMerge,
        ActionFamily::ResTrailer,
        ActionFamily::Attachment,
        ActionFamily::Cache,
        ActionFamily::Tls,
        ActionFamily::UrlRewrite,
        ActionFamily::UrlQuery,
        ActionFamily::Delete,
        ActionFamily::ReqBodySet,
        ActionFamily::ReqBodyPrepend,
        ActionFamily::ReqBodyAppend,
        ActionFamily::ReqBodyReplace,
        ActionFamily::ResBodySet,
        ActionFamily::ResBodyPrepend,
        ActionFamily::ResBodyAppend,
        ActionFamily::ResBodyReplace,
        ActionFamily::Inject,
        ActionFamily::DelayReq,
        ActionFamily::DelayRes,
        ActionFamily::ThrottleReq,
        ActionFamily::ThrottleRes,
        ActionFamily::Bypass,
        ActionFamily::Hide,
        ActionFamily::Tag,
        ActionFamily::Skip,
    ]
}

/// The phases of a family as a list, request before response.
pub open spec fn phase_list(p: FamilyPhases) -> Seq<Phase> {
    match p {
        FamilyPhases::Request => seq![Phase::Req],
        FamilyPhases::Response => seq![Phase::Res],
        FamilyPhases::Both => seq![Phase::Req, Phase::Res],
    }
}

/// Whether a family can have an effect in `phase`.
pub open spec fn family_in_phase(f: ActionFamily, phase: Phase) -> bool {
    phase_list(f.phase_set()).contains(phase)
}

/// The family at each position of the stable order is the family with that position.
pub proof fn lemma_family_positions()
    ensures
        all_families().len() == FAMILY_COUNT,
        forall|f: ActionFamily| #[trigger] all_families()[f.index() as int] == f,
        forall|f: ActionFamily| #[trigger] f.index() < FAMILY_COUNT,
        forall|i: int| 0 <= i < FAMILY_COUNT ==> (#[trigger] all_families()[i]).index() == i,
{
}

/// The family whose stable name is `name`, if any (the first in stable order).
pub open spec fn family_named(name: Seq<char>) -> Option<ActionFamily> {
    first_named(all_families(), name)
}

pub open spec fn first_named(fs: Seq<ActionFamily>, name: Seq<char>) -> Option<ActionFamily>
    decreases fs.len(),
{
    if fs.len() == 0 {
        None
    } else if fs[0].name() == name {
        Some(fs[0])
    } else {
        first_named(fs.drop_first(), name)
    }
}

impl ActionFamily {
    /// Parses one canonical dotted family identifier.
    pub fn from_name(name: &str) -> (r: Option<ActionFamily>)
        ensures
            r == family_named(name@),
    {
        let all = families();
        let target = chars_of(name);
        let mut i: usize = 0;
        assert(all@.skip(0) == all@);
        while i < all.len()
            invariant
                i <= all@.len(),
                all@ == all_families(),
                target@ == name@,
                family_named(name@) == first_named(all@.skip(i as int), name@),
            decreases all@.len() - i,
        {
            let f = all[i];
            let n = chars_of(f.as_str());
            assert(all@.skip(i as int)[0] == f);
            assert(all@.skip(i as int).drop_first() == all@.skip(i + 1));
            if seq_eq(&n, &target) {
                return Some(f);
            }
            i += 1;
        }
        None
    }
}

// ---------------------------------------------------------------------------
// Family sets
// ---------------------------------------------------------------------------

/// Whether bit `i` of `bits` is set.
pub open spec fn bit_set(bits: u64, i: u64) -> bool {
    (bits >> i) & 1u64 == 1u64
}

/// Bits at or above the family count are clear.
pub open spec fn family_bits(bits: u64) -> bool {
    bits >> 47u64 == 0u64
}

/// Compact set of action families used by `skip(...)` and resolver state.
#[derive(Clone, Copy, Debug, PartialEq, Eq)]
pub struct ActionFamilySet(u64);

impl View for ActionFamilySet {
    type V = Set<ActionFamily>;

    closed spec fn view(&self) -> Set<ActionFamily> {
        Set::new(|f: ActionFamily| bit_set(self.0, f.index() as u64))
    }
}

proof fn lemma_bit_or(a: u64, b: u64, i: u64)
    requires
        i < 64,
    ensures
        bit_set(a | b, i) == (bit_set(a, i) || bit_set(b, i)),
{
    assert(((a | b) >> i) & 1u64 == 1u64 <==> ((a >> i) & 1u64 == 1u64 || (b >> i) & 1u64 == 1u64))
        by (bit_vector)
        requires
            i < 64,
    ;
}

proof fn lemma_bit_single(i: u64, j: u64)
    requires
        i < 64,
        j < 64,
    ensures
        bit_set(1u64 << i, j) == (i == j),
{
    assert(((1u64 << i) >> j) & 1u64 == 1u64 <==> i == j) by (bit_vector)
        requires
            i < 64,
            j < 64,
    ;
}

proof fn lemma_bit_and(a: u64, i: u64)
    requires
        i < 64,
    ensures
        (a & (1u64 << i) != 0) == bit_set(a, i),
{
    assert((a & (1u64 << i) != 0u64) <==> ((a >> i) & 1u64 == 1u64)) by (bit_vector)
        requires
            i < 64,
    ;
}

proof fn lemma_bits_or_closed(a: u64, b: u64)
    requires
        family_bits(a),
        family_bits(b),
    ensures
        family_bits(a | b),
{
    assert((a >> 47u64 == 0u64 && b >> 47u64 == 0u64) ==> (a | b) >> 47u64 == 0u64) by (bit_vector);
}

proof fn lemma_single_family_bits(i: u64)
    requires
        i < 47,
    ensures
        family_bits(1u64 << i),
{
    assert(i < 47 ==> (1u64 << i) >> 47u64 == 0u64) by (bit_vector);
}

proof fn lemma_all_bits(i: u64)
    requires
        i < 47,
    ensures
        bit_set(0x7fff_ffff_ffffu64, i),
{
    assert(i < 47 ==> (0x7fff_ffff_ffffu64 >> i) & 1u64 == 1u64) by (bit_vector);
}

proof fn lemma_zero_bits(i: u64)
    requires
        i < 64,
    ensures
        !bit_set(0u64, i),
{
    assert(i < 64 ==> (0u64 >> i) & 1u64 != 1u64) by (bit_vector);
}

proof fn lemma_nonzero_has_bit(b: u64)
    requires
        b != 0,
        family_bits(b),
    ensures
        exists|i: u64| i < 47 && bit_set(b, i),
{
    if forall|i: u64| i < 47 ==> !bit_set(b, i) {
        assert(!bit_set(b, 0u64));
        assert(!bit_set(b, 1u64));
        assert(!bit_set(b, 2u64));
        assert(!bit_set(b, 3u64));
        assert(!bit_set(b, 4u64));
        assert(!bit_set(b, 5u64));
        assert(!bit_set(b, 6u64));
        assert(!bit_set(b, 7u64));
        assert(!bit_set(b, 8u64));
        assert(!bit_set(b, 9u64));
        assert(!bit_set(b, 10u64));
        assert(!bit_set(b, 11u64));
        assert(!bit_set(b, 12u64));
        assert(!bit_set(b, 13u64));
        assert(!bit_set(b, 14u64));
        assert(!bit_set(b, 15u64));
        assert(!bit_set(b, 16u64));
        assert(!bit_set(b, 17u64));
        assert(!bit_set(b, 18u64));
        assert(!bit_set(b, 19u64));
        assert(!bit_set(b, 20u64));
        assert(!bit_set(b, 21u64));
        assert(!bit_set(b, 22u64));
        assert(!bit_set(b, 23u64));
        assert(!bit_set(b, 24u64));
        assert(!bit_set(b, 25u64));
        assert(!bit_set(b, 26u64));
        assert(!bit_set(b, 27u64));
        assert(!bit_set(b, 28u64));
        assert(!bit_set(b, 29u64));
        assert(!bit_set(b, 30u64));
        assert(!bit_set(b, 31u64));
        assert(!bit_set(b, 32u64));
        assert(!bit_set(b, 33u64));
        assert(!bit_set(b, 34u64));
        assert(!bit_set(b, 35u64));
        assert(!bit_set(b, 36u64));
        assert(!bit_set(b, 37u64));
        assert(!bit_set(b, 38u64));
        assert(!bit_set(b, 39u64));
        assert(!bit_set(b, 40u64));
        assert(!bit_set(b, 41u64));
        assert(!bit_set(b, 42u64));
        assert(!bit_set(b, 43u64));
        assert(!bit_set(b, 44u64));
        assert(!bit_set(b, 45u64));
        assert(!bit_set(b, 46u64));
        assert(((b >> 0u64) & 1u64 != 1u64 && (b >> 1u64) & 1u64 != 1u64 && (b >> 2u64) & 1u64 != 1u64 && (b >> 3u64) & 1u64 != 1u64 && (b >> 4u64) & 1u64 != 1u64 && (b >> 5u64) & 1u64 != 1u64 && (b >> 6u64) & 1u64 != 1u64 && (b >> 7u64) & 1u64 != 1u64 && (b >> 8u64) & 1u64 != 1u64 && (b >> 9u64) & 1u64 != 1u64 && (b >> 10u64) & 1u64 != 1u64 && (b >> 11u64) & 1u64 != 1u64 && (b >> 12u64) & 1u64 != 1u64 && (b >> 13u64) & 1u64 != 1u64 && (b >> 14u64) & 1u64 != 1u64 && (b >> 15u64) & 1u64 != 1u64 && (b >> 16u64) & 1u64 != 1u64 && (b >> 17u64) & 1u64 != 1u64 && (b >> 18u64) & 1u64 != 1u64 && (b >> 19u64) & 1u64 != 1u64 && (b >> 20u64) & 1u64 != 1u64 && (b >> 21u64) & 1u64 != 1u64 && (b >> 22u64) & 1u64 != 1u64 && (b >> 23u64) & 1u64 != 1u64 && (b >> 24u64) & 1u64 != 1u64 && (b >> 25u64) & 1u64 != 1u64 && (b >> 26u64) & 1u64 != 1u64 && (b >> 27u64) & 1u64 != 1u64 && (b >> 28u64) & 1u64 != 1u64 && (b >> 29u64) & 1u64 != 1u64 && (b >> 30u64) & 1u64 != 1u64 && (b >> 31u64) & 1u64 != 1u64 && (b >> 32u64) & 1u64 != 1u64 && (b >> 33u64) & 1u64 != 1u64 && (b >> 34u64) & 1u64 != 1u64 && (b >> 35u64) & 1u64 != 1u64 && (b >> 36u64) & 1u64 != 1u64 && (b >> 37u64) & 1u64 != 1u64 && (b >> 38u64) & 1u64 != 1u64 && (b >> 39u64) & 1u64 != 1u64 && (b >> 40u64) & 1u64 != 1u64 && (b >> 41u64) & 1u64 != 1u64 && (b >> 42u64) & 1u64 != 1u64 && (b >> 43u64) & 1u64 != 1u64 && (b >> 44u64) & 1u64 != 1u64 && (b >> 45u64) & 1u64 != 1u64 && (b >> 46u64) & 1u64 != 1u64 && b >> 47u64 == 0u64) ==> b == 0u64) by (bit_vector);
        assert(false);
    }
}

impl ActionFamilySet {
    /// Bit representation invariant: only family bits are set.
    pub closed spec fn wf(self) -> bool {
        family_bits(self.0)
    }

    /// The empty family set.
    pub fn empty() -> (r: ActionFamilySet)
        ensures
            r.wf(),
            r@ == Set::<ActionFamily>::empty(),
    {
        let r = ActionFamilySet(0);
        assert(family_bits(0u64)) by (bit_vector);
        assert forall|f: ActionFamily| !r@.contains(f) by {
            lemma_zero_bits(f.index() as u64);
        }
        assert(r@ =~= Set::<ActionFamily>::empty());
        r
    }

    /// The complete family set.
    pub fn all() -> (r: ActionFamilySet)
        ensures
            r.wf(),
            r@ == Set::<ActionFamily>::full(),
    {
        let r = ActionFamilySet(0x7fff_ffff_ffff);
        assert(family_bits(0x7fff_ffff_ffffu64)) by (bit_vector);
        assert forall|f: ActionFamily| r@.contains(f) by {
            lemma_all_bits(f.index() as u64);
        }
        assert(r@ =~= Set::<ActionFamily>::full());
        r
    }

    /// Reports whether the set contains one family.
    pub fn contains(self, family: ActionFamily) -> (r: bool)
        ensures
            r == self@.contains(family),
    {
        let i = family.position() as u64;
        proof {
            lemma_bit_and(self.0, i);
        }
        self.0 & (1u64 << i) != 0
    }

    /// Adds one family to the set.
    pub fn insert(&mut self, family: ActionFamily)
        ensures
            final(self)@ == old(self)@.insert(family),
            old(self).wf() ==> final(self).wf(),
    {
        let i = family.position() as u64;
        let ghost before = *self;
        self.0 = self.0 | (1u64 << i);
        proof {
            assert forall|f: ActionFamily| #[trigger] self@.contains(f) == (f == family || before@.contains(f)) by {
                lemma_bit_or(before.0, 1u64 << i, f.index() as u64);
                lemma_bit_single(i, f.index() as u64);
                lemma_family_positions();
                if f.index() == family.index() {
                    assert(all_families()[f.index() as int] == f);
                }
            }
            assert(self@ =~= before@.insert(family));
            if before.wf() {
                lemma_single_family_bits(i);
                lemma_bits_or_closed(before.0, 1u64 << i);
            }
        }
    }

    /// Adds every family of `other` to the set.
    pub fn union(&mut self, other: ActionFamilySet)
        ensures
            final(self)@ == old(self)@.union(other@),
            old(self).wf() && other.wf() ==> final(self).wf(),
    {
        let ghost before = *self;
        self.0 = self.0 | other.0;
        proof {
            assert forall|f: ActionFamily| #[trigger] self@.contains(f) == (before@.contains(f) || other@.contains(f)) by {
                lemma_family_positions();
                lemma_bit_or(before.0, other.0, f.index() as u64);
            }
            assert(self@ =~= before@.union(other@));
            if before.wf() && other.wf() {
                lemma_bits_or_closed(before.0, other.0);
            }
        }
    }

    /// Reports whether the set is empty.
    pub fn is_empty(self) -> (r: bool)
        ensures
            r == (self@ == Set::<ActionFamily>::empty()),
    {
        let m = self.0 & 0x7fff_ffff_ffffu64;
        proof {
            let b = self.0;
            assert(family_bits(m)) by (bit_vector)
                requires
                    m == b & 0x7fff_ffff_ffffu64,
            ;
            assert(forall|i: u64| i < 47 ==> (#[trigger] bit_set(m, i) == bit_set(b, i))) by (bit_vector)
                requires
                    m == b & 0x7fff_ffff_ffffu64,
            ;
            lemma_family_positions();
            if m == 0 {
                assert forall|f: ActionFamily| !self@.contains(f) by {
                    lemma_zero_bits(f.index() as u64);
                    assert(bit_set(m, f.index() as u64) == bit_set(b, f.index() as u64));
                }
                assert(self@ =~= Set::<ActionFamily>::empty());
            } else {
                lemma_nonzero_has_bit(m);
                let i = choose|i: u64| i < 47 && bit_set(m, i);
                let f = all_families()[i as int];
                assert(f.index() == i);
                assert(bit_set(m, i) == bit_set(b, i));
                assert(self@.contains(f));
            }
        }
        m == 0
    }

    /// The contained families in stable language order.
    pub open spec fn members(self) -> Seq<ActionFamily> {
        all_families().filter(|f: ActionFamily| self@.contains(f))
    }

    /// Returns the contained families in stable language order.
    pub fn iter(self) -> (r: Vec<ActionFamily>)
        ensures
            r@ == self.members(),
    {
        let all = families();
        let mut out: Vec<ActionFamily> = Vec::new();
        let mut i: usize = 0;
        proof {
            reveal(Seq::filter);
        }
        assert(all@.take(0).filter(|f: ActionFamily| self@.contains(f)) =~= Seq::<ActionFamily>::empty());
        while i < all.len()
            invariant
                i <= all@.len(),
                all@ == all_families(),
                out@ == all@.take(i as int).filter(|f: ActionFamily| self@.contains(f)),
            decreases all@.len() - i,
        {
            let f = all[i];
            proof {
                reveal(Seq::filter);
                assert(all@.take(i + 1).drop_last() == all@.take(i as int));
                assert(all@.take(i + 1).last() == f);
            }
            if self.contains(f) {
                out.push(f);
            }
            i += 1;
        }
        assert(all@.take(all@.len() as int) == all@);
        out
    }
}


// ---------------------------------------------------------------------------
// Family prefixes and `skip(...)` names
// ---------------------------------------------------------------------------

/// `family` equals `prefix` or is nested under it (`prefix.child`).
pub open spec fn within(family: Seq<char>, prefix: Seq<char>) -> bool {
    has_prefix(family, prefix) && (family.len() == prefix.len() || family[prefix.len() as int] == '.')
}

/// True when `family` equals `prefix` or is nested under it (`prefix.child`).
pub fn family_within(family: &str, prefix: &str) -> (r: bool)
    ensures
        r == within(family@, prefix@),
{
    let f = chars_of(family);
    let p = chars_of(prefix);
    if !starts_with(&f, &p) {
        return false;
    }
    f.len() == p.len() || f[p.len()] == '.'
}

/// The families selected by a `skip(...)` prefix.
pub open spec fn prefix_families(prefix: Seq<char>) -> Set<ActionFamily> {
    if prefix == "all"@ || prefix == "*"@ {
        Set::full()
    } else {
        Set::new(|f: ActionFamily| within(f.name(), prefix))
    }
}

impl ActionFamilySet {
    /// The families named by a `skip(...)` prefix: `all` or `*` for every family, otherwise the
    /// families equal to or nested under the prefix; `None` when that is no family.
    pub fn from_prefix(prefix: &str) -> (r: Option<ActionFamilySet>)
        ensures
            match r {
                Some(s) => s.wf() && s@ == prefix_families(prefix@) && s@ != Set::<ActionFamily>::empty(),
                None => prefix_families(prefix@) == Set::<ActionFamily>::empty(),
            },
    {
        let p = chars_of(prefix);
        let all_word = chars_of("all");
        let star = chars_of("*");
        if seq_eq(&p, &all_word) || seq_eq(&p, &star) {
            let s = ActionFamilySet::all();
            proof {
                let f = ActionFamily::Host;
                assert(s@.contains(f));
            }
            return Some(s);
        }
        let all = families();
        let mut set = ActionFamilySet::empty();
        let mut i: usize = 0;
        while i < all.len()
            invariant
                i <= all@.len(),
                all@ == all_families(),
                set.wf(),
                p@ == prefix@,
                !(prefix@ == "all"@ || prefix@ == "*"@),
                forall|f: ActionFamily| #[trigger] set@.contains(f) <==> (f.index() < i && within(f.name(), prefix@)),
            decreases all@.len() - i,
        {
            let f = all[i];
            proof {
                lemma_family_positions();
            }
            if family_within(f.as_str(), prefix) {
                set.insert(f);
            }
            i += 1;
        }
        proof {
            lemma_family_positions();
            assert(set@ =~= prefix_families(prefix@));
        }
        if set.is_empty() {
            None
        } else {
            Some(set)
        }
    }
}

/// Drops leading double and single quotes.
pub open spec fn strip_quotes_start(s: Seq<char>) -> Seq<char>
    decreases s.len(),
{
    if s.len() > 0 && (s[0] == '"' || s[0] == '\'') {
        strip_quotes_start(s.drop_first())
    } else {
        s
    }
}

/// Drops trailing double and single quotes.
pub open spec fn strip_quotes_end(s: Seq<char>) -> Seq<char>
    decreases s.len(),
{
    if s.len() > 0 && (s.last() == '"' || s.last() == '\'') {
        strip_quotes_end(s.drop_last())
    } else {
        s
    }
}

/// `_` and `-` as `.`, other characters unchanged.
pub open spec fn dot_separator(c: char) -> char {
    if c == '_' || c == '-' {
        '.'
    } else {
        c
    }
}

/// A `skip(...)` family name: trimmed, unquoted, lowercase, with `_` and `-` read as `.`.
pub open spec fn normalized_family(s: Seq<char>) -> Seq<char> {
    lower_seq(strip_quotes_end(strip_quotes_start(trim(s)))).map_values(|c: char| dot_separator(c))
}

/// Normalizes a `skip(...)` family name.
pub fn normalize_skip_family(family: &str) -> (r: String)
    ensures
        r@ == normalized_family(family@),
{
    let cs = chars_of(family);
    let t = trim_chars(&cs);
    let mut a: usize = 0;
    assert(t@.skip(0) == t@);
    while a < t.len() && (t[a] == '"' || t[a] == '\'')
        invariant
            a <= t@.len(),
            strip_quotes_start(t@) == strip_quotes_start(t@.skip(a as int)),
        decreases t@.len() - a,
    {
        assert(t@.skip(a as int).drop_first() == t@.skip(a + 1));
        a += 1;
    }
    let u = slice_vec(&t, a, t.len());
    assert(u@ == t@.skip(a as int));
    let mut b: usize = u.len();
    assert(u@.take(u@.len() as int) == u@);
    while b > 0 && (u[b - 1] == '"' || u[b - 1] == '\'')
        invariant
            b <= u@.len(),
            strip_quotes_end(u@) == strip_quotes_end(u@.take(b as int)),
        decreases b,
    {
        assert(u@.take(b as int).drop_last() == u@.take(b - 1));
        b -= 1;
    }
    let v = slice_vec(&u, 0, b);
    assert(v@ == u@.take(b as int));
    let low = lower_chars(&v);
    let mut out = String::new();
    let mut i: usize = 0;
    while i < low.len()
        invariant
            i <= low@.len(),
            out@ == low@.take(i as int).map_values(|c: char| dot_separator(c)),
        decreases low@.len() - i,
    {
        let c = low[i];
        let d = if c == '_' || c == '-' {
            '.'
        } else {
            c
        };
        push_char(&mut out, d);
        assert(low@.take(i + 1).map_values(|c: char| dot_separator(c)) =~= low@.take(
            i as int,
        ).map_values(|c: char| dot_separator(c)).push(dot_separator(c)));
        i += 1;
    }
    assert(low@.take(low@.len() as int) == low@);
    out
}

/// The stable family of an action.
pub open spec fn action_family(a: Action) -> ActionFamily {
    match a {
        Action::Host(_) => ActionFamily::Host,
        Action::Upstream(_) => ActionFamily::Upstream,
        Action::Direct => ActionFamily::Direct,
        Action::Mock(_) => ActionFamily::Mock,
        Action::MockRaw(_) => ActionFamily::Mock,
        Action::MockInline(_) => ActionFamily::Mock,
        Action::MapRemote(_) => ActionFamily::MapRemote,
        Action::Status(_) => ActionFamily::Status,
        Action::Redirect { .. } => ActionFamily::Redirect,
        Action::ReqHeader(_) => ActionFamily::ReqHeader,
        Action::ResHeader(_) => ActionFamily::ResHeader,
        Action::ResStatus(_) => ActionFamily::ResStatus,
        Action::ReqMethod(_) => ActionFamily::ReqMethod,
        Action::ReqCookie(_) => ActionFamily::ReqCookie,
        Action::ResCookie(_) => ActionFamily::ResCookie,
        Action::ReqUa(_) => ActionFamily::ReqUa,
        Action::ReqReferer(_) => ActionFamily::ReqReferer,
        Action::ReqAuth(_) => ActionFamily::ReqAuth,
        Action::ReqForwarded(_) => ActionFamily::ReqForwarded,
        Action::ReqType(_) => ActionFamily::ReqType,
        Action::ReqCharset(_) => ActionFamily::ReqCharset,
        Action::ResCors(_) => ActionFamily::ResCors,
        Action::ResType(_) => ActionFamily::ResType,
        Action::ResCharset(_) => ActionFamily::ResCharset,
        Action::ResMerge(_) => ActionFamily::ResMerge,
        Action::ResTrailer(_) => ActionFamily::ResTrailer,
        Action::Attachment(_) => ActionFamily::Attachment,
        Action::Cache(_) => ActionFamily::Cache,
        Action::Tls(_) => ActionFamily::Tls,
        Action::UrlRewrite { .. } => ActionFamily::UrlRewrite,
        Action::UrlQuery(_) => ActionFamily::UrlQuery,
        Action::Delete(_) => ActionFamily::Delete,
        Action::ReqBody(BodyOp::SetValue(_)) => ActionFamily::ReqBodySet,
        Action::ReqBody(BodyOp::Prepend(_)) => ActionFamily::ReqBodyPrepend,
        Action::ReqBody(BodyOp::Append(_)) => ActionFamily::ReqBodyAppend,
        Action::ReqBody(BodyOp::Replace { .. }) => ActionFamily::ReqBodyReplace,
        Action::ResBody(BodyOp::SetValue(_)) => ActionFamily::ResBodySet,
        Action::ResBody(BodyOp::Prepend(_)) => ActionFamily::ResBodyPrepend,
        Action::ResBody(BodyOp::Append(_)) => ActionFamily::ResBodyAppend,
        Action::ResBody(BodyOp::Replace { .. }) => ActionFamily::ResBodyReplace,
        Action::Inject(_) => ActionFamily::Inject,
        Action::Delay { phase: Phase::Req, .. } => ActionFamily::DelayReq,
        Action::Delay { phase: Phase::Res, .. } => ActionFamily::DelayRes,
        Action::Throttle { phase: Phase::Req, .. } => ActionFamily::ThrottleReq,
        Action::Throttle { phase: Phase::Res, .. } => ActionFamily::ThrottleRes,
        Action::Bypass => ActionFamily::Bypass,
        Action::Hide => ActionFamily::Hide,
        Action::Tag(_) => ActionFamily::Tag,
        Action::Skip(_) => ActionFamily::Skip,
    }
}

/// Whether an action has an effect in `phase`: a deletion when one of its operations targets
/// that phase, any other action when its family does.
pub open spec fn action_applies_in(a: Action, phase: Phase) -> bool {
    match a {
        Action::Delete(ops) => exists|i: int| 0 <= i < ops.len() && #[trigger] delete_phase(ops[i]@) == phase,
        _ => family_in_phase(action_family(a), phase),
    }
}

impl Action {
    /// Returns this action's stable family identifier for ordering, skipping, and traces.
    pub fn family(&self) -> (r: ActionFamily)
        ensures
            r == action_family(*self),
    {
        match self {
            Action::Host(_) => ActionFamily::Host,
            Action::Upstream(_) => ActionFamily::Upstream,
            Action::Direct => ActionFamily::Direct,
            Action::Mock(_) | Action::MockRaw(_) | Action::MockInline(_) => ActionFamily::Mock,
            Action::MapRemote(_) => ActionFamily::MapRemote,
            Action::Status(_) => ActionFamily::Status,
            Action::Redirect { .. } => ActionFamily::Redirect,
            Action::ReqHeader(_) => ActionFamily::ReqHeader,
            Action::ResHeader(_) => ActionFamily::ResHeader,
            Action::ResStatus(_) => ActionFamily::ResStatus,
            Action::ReqMethod(_) => ActionFamily::ReqMethod,
            Action::ReqCookie(_) => ActionFamily::ReqCookie,
            Action::ResCookie(_) => ActionFamily::ResCookie,
            Action::ReqUa(_) => ActionFamily::ReqUa,
            Action::ReqReferer(_) => ActionFamily::ReqReferer,
            Action::ReqAuth(_) => ActionFamily::ReqAuth,
            Action::ReqForwarded(_) => ActionFamily::ReqForwarded,
            Action::ReqType(_) => ActionFamily::ReqType,
            Action::ReqCharset(_) => ActionFamily::ReqCharset,
            Action::ResCors(_) => ActionFamily::ResCors,
            Action::ResType(_) => ActionFamily::ResType,
            Action::ResCharset(_) => ActionFamily::ResCharset,
            Action::ResMerge(_) => ActionFamily::ResMerge,
            Action::ResTrailer(_) => ActionFamily::ResTrailer,
            Action::Attachment(_) => ActionFamily::Attachment,
            Action::Cache(_) => ActionFamily::Cache,
            Action::Tls(_) => ActionFamily::Tls,
            Action::UrlRewrite { .. } => ActionFamily::UrlRewrite,
            Action::UrlQuery(_) => ActionFamily::UrlQuery,
            Action::Delete(_) => ActionFamily::Delete,
            Action::ReqBody(BodyOp::SetValue(_)) => ActionFamily::ReqBodySet,
            Action::ReqBody(BodyOp::Prepend(_)) => ActionFamily::ReqBodyPrepend,
            Action::ReqBody(BodyOp::Append(_)) => ActionFamily::ReqBodyAppend,
            Action::ReqBody(BodyOp::Replace { .. }) => ActionFamily::ReqBodyReplace,
            Action::ResBody(BodyOp::SetValue(_)) => ActionFamily::ResBodySet,
            Action::ResBody(BodyOp::Prepend(_)) => ActionFamily::ResBodyPrepend,
            Action::ResBody(BodyOp::Append(_)) => ActionFamily::ResBodyAppend,
            Action::ResBody(BodyOp::Replace { .. }) => ActionFamily::ResBodyReplace,
            Action::Inject(_) => ActionFamily::Inject,
            Action::Delay { phase: Phase::Req, .. } => ActionFamily::DelayReq,
            Action::Delay { phase: Phase::Res, .. } => ActionFamily::DelayRes,
            Action::Throttle { phase: Phase::Req, .. } => ActionFamily::ThrottleReq,
            Action::Throttle { phase: Phase::Res, .. } => ActionFamily::ThrottleRes,
            Action::Bypass => ActionFamily::Bypass,
            Action::Hide => ActionFamily::Hide,
            Action::Tag(_) => ActionFamily::Tag,
            Action::Skip(_) => ActionFamily::Skip,
        }
    }

    /// Reports whether only the first applicable action of this action's family is kept.
    pub fn is_single(&self) -> (r: bool)
        ensures
            r == (action_family(*self).policy() != ResolutionPolicy::Stackable),
    {
        !self.is_stackable()
    }

    /// Reports whether every applicable action in this action's family is retained.
    pub fn is_stackable(&self) -> (r: bool)
        ensures
            r == (action_family(*self).policy() == ResolutionPolicy::Stackable),
    {
        self.family().resolution() == ResolutionPolicy::Stackable
    }

    /// Reports whether this concrete action has an effect in the requested phase.
    ///
    /// A `delete(...)` action is classified from its typed operations; other actions use their
    /// stable family contract.
    pub fn applies_in(&self, phase: Phase) -> (r: bool)
        ensures
            r == action_applies_in(*self, phase),
    {
        match self {
            Action::Delete(operations) => {
                let mut i: usize = 0;
                while i < operations.len()
                    invariant
                        i <= operations@.len(),
                        forall|j: int| 0 <= j < i ==> #[trigger] delete_phase(operations@[j]@) != phase,
                        action_applies_in(*self, phase) == exists|j: int|
                            0 <= j < operations@.len() && #[trigger] delete_phase(operations@[j]@)
                                == phase,
                    decreases operations@.len() - i,
                {
                    if delete_operation_applies_in(&operations[i], phase) {
                        assert(delete_phase(operations@[i as int]@) == phase);
                        return true;
                    }
                    i += 1;
                }
                false
            },
            _ => Action::family_applies_in(self.family(), phase),
        }
    }

    /// Reports whether a stable action-family identifier has stackable semantics.
    pub fn family_is_stackable(family: ActionFamily) -> (r: bool)
        ensures
            r == (family.policy() == ResolutionPolicy::Stackable),
    {
        family.resolution() == ResolutionPolicy::Stackable
    }

    /// Returns the phases in which a stable action family can have an effect.
    pub fn family_phases(family: ActionFamily) -> (r: Vec<Phase>)
        ensures
            r@ == phase_list(family.phase_set()),
    {
        family.phases()
    }

    /// Reports whether a stable action family can have an effect in one phase.
    pub fn family_applies_in(family: ActionFamily, phase: Phase) -> (r: bool)
        ensures
            r == family_in_phase(family, phase),
    {
        let phases = family.phases();
        let mut i: usize = 0;
        while i < phases.len()
            invariant
                i <= phases@.len(),
                phases@ == phase_list(family.phase_set()),
                forall|j: int| 0 <= j < i ==> phases@[j] != phase,
            decreases phases@.len() - i,
        {
            if phases[i] == phase {
                return true;
            }
            i += 1;
        }
        assert(!phase_list(family.phase_set()).contains(phase));
        false
    }
}

/// The families suppressed after seeing `a`: every family after an empty `skip()`, the named
/// families added after a `skip(...)` that names some, unchanged after any other action.
pub open spec fn skip_after(s: Set<ActionFamily>, a: Action) -> Set<ActionFamily> {
    match a {
        Action::Skip(f) => if f@ == Set::<ActionFamily>::empty() {
            Set::full()
        } else {
            s.union(f@)
        },
        _ => s,
    }
}

/// Tracks which action families earlier `skip(...)` actions suppress.
pub struct SkipState {
    families: ActionFamilySet,
}

impl View for SkipState {
    type V = Set<ActionFamily>;

    closed spec fn view(&self) -> Set<ActionFamily> {
        self.families@
    }
}

impl Default for SkipState {
    fn default() -> (r: SkipState)
        ensures
            r@ == Set::<ActionFamily>::empty(),
    {
        SkipState { families: ActionFamilySet::empty() }
    }
}

impl SkipState {
    /// Reports whether an earlier `skip(...)` suppresses `family`.
    pub fn suppresses(&self, family: ActionFamily) -> (r: bool)
        ensures
            r == self@.contains(family),
    {
        self.families.contains(family)
    }

    /// Records the effect of one action on the suppressed families.
    pub fn observe(&mut self, action: &Action)
        ensures
            final(self)@ == skip_after(old(self)@, *action),
    {
        if let Action::Skip(families) = action {
            if families.is_empty() {
                self.families = ActionFamilySet::all();
            } else {
                self.families.union(*families);
            }
        }
    }
}

/// Positions, below `n`, of the actions that survive earlier `skip(...)` actions, and the
/// families suppressed after the first `n` actions.
pub open spec fn survivors(actions: Seq<Action>, n: int) -> (Seq<int>, Set<ActionFamily>)
    decreases n,
{
    if n <= 0 {
        (Seq::empty(), Set::empty())
    } else {
        let (kept, s) = survivors(actions, n - 1);
        let a = actions[n - 1];
        if s.contains(action_family(a)) {
            (kept, s)
        } else {
            (kept.push(n - 1), skip_after(s, a))
        }
    }
}

/// Returns the actions that survive earlier `skip(...)` actions of the same rule, in order.
pub fn effective_actions(actions: &[Action]) -> (r: Vec<&Action>)
    ensures
        r@.len() == survivors(actions@, actions@.len() as int).0.len(),
        forall|k: int|
            0 <= k < r@.len() ==> *r@[k] == actions@[#[trigger] survivors(
                actions@,
                actions@.len() as int,
            ).0[k]],
{
    let mut skip = SkipState::default();
    let mut out: Vec<&Action> = Vec::new();
    let mut i: usize = 0;
    while i < actions.len()
        invariant
            i <= actions@.len(),
            out@.len() == survivors(actions@, i as int).0.len(),
            skip@ == survivors(actions@, i as int).1,
            forall|k: int|
                0 <= k < out@.len() ==> *out@[k] == actions@[#[trigger] survivors(
                    actions@,
                    i as int,
                ).0[k]],
        decreases actions@.len() - i,
    {
        let a = &actions[i];
        if skip.suppresses(a.family()) {
            i += 1;
            continue;
        }
        out.push(a);
        skip.observe(a);
        i += 1;
    }
    out
}

/// An empty `skip()` that survives suppresses every later action of the rule: it is always the
/// last surviving action.
pub proof fn law_empty_skip_is_last_survivor(actions: Seq<Action>, n: int)
    requires
        0 <= n <= actions.len(),
    ensures
        forall|a: int|
            0 <= a < survivors(actions, n).0.len() && (#[trigger] actions[survivors(actions, n).0[a]]
                matches Action::Skip(f) && f@ == Set::<ActionFamily>::empty())
                ==> a == survivors(actions, n).0.len() - 1 && survivors(actions, n).1
                == Set::<ActionFamily>::full(),
    decreases n,
{
    if n > 0 {
        law_empty_skip_is_last_survivor(actions, n - 1);
        let (kept, st) = survivors(actions, n - 1);
        let next = actions[n - 1];
        if !st.contains(action_family(next)) {
            assert(st != Set::<ActionFamily>::full());
            let (kept2, st2) = survivors(actions, n);
            assert(kept2 == kept.push(n - 1));
            assert forall|a: int|
                0 <= a < kept2.len() && (#[trigger] actions[kept2[a]] matches Action::Skip(f) && f@
                    == Set::<ActionFamily>::empty()) implies a == kept2.len() - 1 && st2
                == Set::<ActionFamily>::full() by {
                if a < kept.len() {
                    assert(kept2[a] == kept[a]);
                } else {
                    assert(kept2[a] == n - 1);
                    assert(st2 == skip_after(st, next));
                }
            }
        }
    }
}

} // verus!
