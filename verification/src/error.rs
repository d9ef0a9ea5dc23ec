//! The library's error type.
use vstd::prelude::*;

use crate::text::{concat2, concat3, owned};

verus! {

/// What went wrong, with the texts that describe it.
#[derive(Debug)]
pub enum Error {
    /// A free-form message.
    Message(String),
    /// A file could not be read.
    Read { path: String, source: String },
    /// A file could not be written.
    Write { path: String, source: String },
    /// A TOML file could not be parsed.
    ParseToml { path: String, source: String },
    /// An outside command failed.
    Command { command: String, status: String, details: String },
    /// Another process holds the worktree lock.
    Locked,
}

/// The texts an error carries.
pub enum ErrorView {
    Message(Seq<char>),
    Read(Seq<char>, Seq<char>),
    Write(Seq<char>, Seq<char>),
    ParseToml(Seq<char>, Seq<char>),
    Command(Seq<char>, Seq<char>, Seq<char>),
    Locked,
}

impl View for Error {
    type V = ErrorView;

    open spec fn view(&self) -> ErrorView {
        match self {
            Error::Message(m) => ErrorView::Message(m@),
            Error::Read { path, source } => ErrorView::Read(path@, source@),
            Error::Write { path, source } => ErrorView::Write(path@, source@),
            Error::ParseToml { path, source } => ErrorView::ParseToml(path@, source@),
            Error::Command { command, status, details } => ErrorView::Command(command@, status@, details@),
            Error::Locked => ErrorView::Locked,
        }
    }
}

/// How an error is shown to the user.
pub open spec fn error_text(e: ErrorView) -> Seq<char> {
    match e {
        ErrorView::Message(m) => m,
        ErrorView::Read(p, s) => "无法读取 "@ + p + ": "@ + s,
        ErrorView::Write(p, s) => "无法写入 "@ + p + ": "@ + s,
        ErrorView::ParseToml(p, s) => "无法解析 "@ + p + ": "@ + s,
        ErrorView::Command(c, st, d) => "命令 `"@ + c + "` 执行失败（退出码 "@ + st + "）"@ + d,
        ErrorView::Locked => "当前工作树正被另一个 fls 进程修改，请稍后重试"@,
    }
}

impl Error {
    /// An error that carries just `message`.
    pub fn message(message: &str) -> (e: Error)
        ensures
            e@ == ErrorView::Message(message@),
    {
        Error::Message(owned(message))
    }

    /// The text shown for this error.
    pub fn text(&self) -> (r: String)
        ensures
            r@ == error_text(self@),
    {
        match self {
            Error::Message(m) => m.clone(),
            Error::Read { path, source } => {
                let mut r = concat3("无法读取 ", path.as_str(), ": ");
                r.append(source.as_str());
                r
            },
            Error::Write { path, source } => {
                let mut r = concat3("无法写入 ", path.as_str(), ": ");
                r.append(source.as_str());
                r
            },
            Error::ParseToml { path, source } => {
                let mut r = concat3("无法解析 ", path.as_str(), ": ");
                r.append(source.as_str());
                r
            },
            Error::Command { command, status, details } => {
                let mut r = concat3("命令 `", command.as_str(), "` 执行失败（退出码 ");
                r.append(status.as_str());
                r.append("）");
                r.append(details.as_str());
                r
            },
            Error::Locked => owned("当前工作树正被另一个 fls 进程修改，请稍后重试"),
        }
    }

    /// A copy of this error.
    pub fn duplicate(&self) -> (r: Error)
        ensures
            r@ == self@,
    {
        match self {
            Error::Message(m) => Error::Message(m.clone()),
            Error::Read { path, source } => Error::Read { path: path.clone(), source: source.clone() },
            Error::Write { path, source } => Error::Write { path: path.clone(), source: source.clone() },
            Error::ParseToml { path, source } => Error::ParseToml { path: path.clone(), source: source.clone() },
            Error::Command { command, status, details } => Error::Command {
                command: command.clone(),
                status: status.clone(),
                details: details.clone(),
            },
            Error::Locked => Error::Locked,
        }
    }
}

/// An error whose message is the three pieces one after another.
pub fn message3(a: &str, b: &str, c: &str) -> (e: Error)
    ensures
        e@ == ErrorView::Message(a@ + b@ + c@),
{
    Error::Message(concat3(a, b, c))
}

/// An error whose message is the two pieces one after another.
pub fn message2(a: &str, b: &str) -> (e: Error)
    ensures
        e@ == ErrorView::Message(a@ + b@),
{
    Error::Message(concat2(a, b))
}


/// The text form of a result that carries a string.
pub open spec fn string_result_view(r: &Result<String, Error>) -> Result<Seq<char>, ErrorView> {
    match r {
        Ok(s) => Ok(s@),
        Err(e) => Err(e@),
    }
}

}
