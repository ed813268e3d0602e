//! The decisions of the HTTP entry points: which handler a request reaches,
//! and what a chat update asks for.
use vstd::prelude::*;

verus! {

/// The handler a request reaches.
#[derive(PartialEq, Eq, Structural, Clone, Copy, Debug)]
pub enum Route {
    MethodNotAllowed,
    Ping,
    Push,
    Telegram,
    Auth,
    Refresh,
    NotFound,
}

/// The handler for a request whose method is GET or POST (or not), by the
/// first segment of its path.
pub open spec fn route_of(get_or_post: bool, segment: Option<Seq<char>>) -> Route {
    if !get_or_post {
        Route::MethodNotAllowed
    } else {
        match segment {
            Some(s) => if s == "ping"@ {
                Route::Ping
            } else if s == "push"@ {
                Route::Push
            } else if s == "telegram"@ {
                Route::Telegram
            } else if s == "auth"@ {
                Route::Auth
            } else if s == "refresh"@ {
                Route::Refresh
            } else {
                Route::NotFound
            },
            None => Route::NotFound,
        }
    }
}

fn is_text(a: &str, b: &str) -> (r: bool)
    ensures
        r == (a@ == b@),
{
    String::from_str(a) == String::from_str(b)
}

/// Picks the handler of a request.
pub fn route(get_or_post: bool, segment: Option<&str>) -> (r: Route)
    ensures
        r == route_of(
            get_or_post,
            match segment {
                Some(s) => Some(s@),
                None => None,
            },
        ),
{
    if !get_or_post {
        return Route::MethodNotAllowed;
    }
    match segment {
        Some(s) => if is_text(s, "ping") {
            Route::Ping
        } else if is_text(s, "push") {
            Route::Push
        } else if is_text(s, "telegram") {
            Route::Telegram
        } else if is_text(s, "auth") {
            Route::Auth
        } else if is_text(s, "refresh") {
            Route::Refresh
        } else {
            Route::NotFound
        },
        None => Route::NotFound,
    }
}

/// What a chat update asks for.
#[derive(PartialEq, Eq, Structural, Clone, Copy, Debug)]
pub enum Reply {
    /// The update carries no message.
    NotAMessage,
    /// The sender is not the allowed user, or is not known.
    Unauthorized,
    /// The message has no text.
    NoText,
    /// Run the delivery now.
    Push,
    /// Empty the ledger.
    Clear,
    /// The text is no known command.
    UnknownCommand,
}

/// The answer to a chat update, from whether it holds a message, its sender,
/// the one allowed sender, and its text.
pub open spec fn reply_of(
    has_message: bool,
    user_id: Option<i64>,
    allowed_id: i64,
    text: Option<Seq<char>>,
) -> Reply {
    if !has_message {
        Reply::NotAMessage
    } else if user_id != Some(allowed_id) {
        Reply::Unauthorized
    } else {
        match text {
            None => Reply::NoText,
            Some(t) => if t == "/push"@ {
                Reply::Push
            } else if t == "/clear"@ {
                Reply::Clear
            } else {
                Reply::UnknownCommand
            },
        }
    }
}

/// Decides what a chat update asks for.
pub fn telegram_reply(
    has_message: bool,
    user_id: Option<i64>,
    allowed_id: i64,
    text: Option<&str>,
) -> (r: Reply)
    ensures
        r == reply_of(
            has_message,
            user_id,
            allowed_id,
            match text {
                Some(t) => Some(t@),
                None => None,
            },
        ),
{
    if !has_message {
        return Reply::NotAMessage;
    }
    match user_id {
        Some(u) => if u != allowed_id {
            return Reply::Unauthorized;
        },
        None => return Reply::Unauthorized,
    }
    match text {
        None => Reply::NoText,
        Some(t) => if is_text(t, "/push") {
            Reply::Push
        } else if is_text(t, "/clear") {
            Reply::Clear
        } else {
            Reply::UnknownCommand
        },
    }
}

} // verus!
