//! The chat sink: one message per new item, with the description's HTML cut
//! down to the tags that the chat accepts and its images sent alongside.
use vstd::prelude::*;
use html5tokenizer::{NaiveParser, Token};
use crate::model::{UndoneList, UndoneListItem};
use crate::text::{push_char, trim, trim_of};

verus! {

/// A token of an HTML fragment, as far as the chat sink reads it.
pub enum HtmlToken {
    Char(char),
    /// A start tag, with the value of its `src` attribute.
    StartTag(String, Option<String>),
    EndTag(String),
    EndOfFile,
    /// A comment or a doctype.
    Other,
}

/// The tokens that the naive HTML parser yields for a fragment.
pub uninterp spec fn html_tokens_of(html: Seq<char>) -> Seq<HtmlToken>;

/// Relies on `html5tokenizer::NaiveParser`: the tokens of `html`, errors
/// skipped, each mapped one to one.
#[verifier::external_body]
fn html_tokens(html: &str) -> (r: Vec<HtmlToken>)
    ensures
        r@ == html_tokens_of(html@),
{
    NaiveParser::new(html).flatten().map(|t| match t {
        Token::Char(c) => HtmlToken::Char(c),
        Token::StartTag(t) => HtmlToken::StartTag(t.name, t.attributes.get("src").map(str::to_owned)),
        Token::EndTag(t) => HtmlToken::EndTag(t.name),
        Token::EndOfFile => HtmlToken::EndOfFile,
        Token::Comment(_) => HtmlToken::Other,
        Token::Doctype(_) => HtmlToken::Other,
    }).collect()
}

/// The tags that a chat message may keep.
pub open spec fn allowed_tag(name: Seq<char>) -> bool {
    name == "b"@ || name == "strong"@ || name == "i"@ || name == "em"@ || name == "u"@ || name
        == "ins"@ || name == "s"@ || name == "strike"@ || name == "del"@ || name == "a"@ || name
        == "code"@ || name == "pre"@
}

/// The text and image sources kept from `tokens`: characters are kept,
/// allowed tags are kept bare, an image contributes its source, a closing
/// paragraph or line break becomes a newline, other tags vanish. A comment or
/// doctype makes the fragment unusable.
pub open spec fn sanitize(tokens: Seq<HtmlToken>) -> Option<(Seq<char>, Seq<Seq<char>>)>
    decreases tokens.len(),
{
    if tokens.len() == 0 {
        Some((Seq::empty(), Seq::empty()))
    } else {
        match sanitize(tokens.drop_last()) {
            None => None,
            Some((h, imgs)) => match tokens.last() {
                HtmlToken::Char(c) => Some((h.push(c), imgs)),
                HtmlToken::StartTag(name, src) => if name@ == "img"@ {
                    match src {
                        Some(s) => Some((h, imgs.push(s@))),
                        None => Some((h, imgs)),
                    }
                } else if allowed_tag(name@) {
                    Some((h + "<"@ + name@ + ">"@, imgs))
                } else {
                    Some((h, imgs))
                },
                HtmlToken::EndTag(name) => if name@ == "p"@ || name@ == "br"@ {
                    Some((h + "\n"@, imgs))
                } else if allowed_tag(name@) {
                    Some((h + "</"@ + name@ + ">"@, imgs))
                } else {
                    Some((h, imgs))
                },
                HtmlToken::EndOfFile => Some((h, imgs)),
                HtmlToken::Other => None,
            },
        }
    }
}

/// A fragment that is unusable up to some token stays unusable.
proof fn lemma_sanitize_fails_onward(tokens: Seq<HtmlToken>, k: int)
    requires
        0 <= k <= tokens.len(),
        sanitize(tokens.take(k)) is None,
    ensures
        sanitize(tokens) is None,
    decreases tokens.len() - k,
{
    if k < tokens.len() {
        assert(tokens.take(k + 1).drop_last() =~= tokens.take(k));
        lemma_sanitize_fails_onward(tokens, k + 1);
    } else {
        assert(tokens.take(k) =~= tokens);
    }
}

/// Whether `a` reads `b`.
fn text_is(a: &String, b: &str) -> (r: bool)
    ensures
        r == (a@ == b@),
{
    *a == String::from_str(b)
}

fn is_allowed_tag(name: &String) -> (r: bool)
    ensures
        r == allowed_tag(name@),
{
    text_is(name, "b") || text_is(name, "strong") || text_is(name, "i") || text_is(name, "em")
        || text_is(name, "u") || text_is(name, "ins") || text_is(name, "s") || text_is(
        name,
        "strike",
    ) || text_is(name, "del") || text_is(name, "a") || text_is(name, "code") || text_is(
        name,
        "pre",
    )
}

/// The views of a list of strings.
pub open spec fn views(v: Seq<String>) -> Seq<Seq<char>> {
    v.map_values(|s: String| s@)
}

/// The already tokenized form of `filter_and_extract_image`.
pub fn sanitize_tokens(tokens: &Vec<HtmlToken>) -> (r: Option<(String, Vec<String>)>)
    ensures
        r matches Some((h, imgs)) ==> sanitize(tokens@) == Some((h@, views(imgs@))),
        r is None <==> sanitize(tokens@) is None,
{
    let mut h = String::new();
    let mut imgs: Vec<String> = Vec::new();
    let mut i: usize = 0;
    while i < tokens.len()
        invariant
            i <= tokens@.len(),
            sanitize(tokens@.take(i as int)) == Some((h@, views(imgs@))),
        decreases tokens@.len() - i,
    {
        assert(tokens@.take(i + 1).drop_last() =~= tokens@.take(i as int));
        assert(tokens@.take(i + 1).last() == tokens@[i as int]);
        match &tokens[i] {
            HtmlToken::Char(c) => {
                push_char(&mut h, *c);
            },
            HtmlToken::StartTag(name, src) => {
                if text_is(name, "img") {
                    match src {
                        Some(s) => {
                            imgs.push(s.clone());
                            assert(views(imgs@) =~= views(imgs@.drop_last()).push(s@));
                        },
                        None => {},
                    }
                } else if is_allowed_tag(name) {
                    h.append("<");
                    h.append(name.as_str());
                    h.append(">");
                }
            },
            HtmlToken::EndTag(name) => {
                if text_is(name, "p") || text_is(name, "br") {
                    h.append("\n");
                } else if is_allowed_tag(name) {
                    h.append("</");
                    h.append(name.as_str());
                    h.append(">");
                }
            },
            HtmlToken::EndOfFile => {},
            HtmlToken::Other => {
                proof {
                    lemma_sanitize_fails_onward(tokens@, i + 1);
                }
                return None;
            },
        }
        i += 1;
    }
    assert(tokens@.take(tokens@.len() as int) =~= tokens@);
    Some((h, imgs))
}

/// The chat form of an HTML description: its text with only the allowed tags,
/// and the sources of its images; `None` when it holds a comment or doctype.
pub fn filter_and_extract_image(html: &str) -> (r: Option<(String, Vec<String>)>)
    ensures
        r matches Some((h, imgs)) ==> sanitize(html_tokens_of(html@)) == Some((h@, views(imgs@))),
        r is None <==> sanitize(html_tokens_of(html@)) is None,
{
    let tokens = html_tokens(html);
    sanitize_tokens(&tokens)
}

/// The heading of every message.
pub open spec fn heading() -> Seq<char> {
    "<b>❤️小助手提醒你写作业啦！</b>\n\n"@
}

/// The message for one item, given its start time, whether late submission is
/// allowed, and its trimmed description.
pub open spec fn message_text(
    item: UndoneListItem,
    start: Seq<char>,
    overtime: bool,
    detail: Seq<char>,
) -> Seq<char> {
    heading() + match item.course_info {
        Some(c) => "<b>课程</b>："@ + c.name@ + "\n"@,
        None => Seq::empty(),
    } + "<b>作业</b>："@ + item.activity_name@ + "\n<b>开始时间</b>："@ + start
        + "\n<b>结束时间</b>："@ + item.end_time@ + "\n<b>能否补交</b>："@ + if overtime {
        "能"@
    } else {
        "否"@
    } + if detail.len() == 0 {
        Seq::empty()
    } else {
        "\n\n<b>详细：</b>\n\n"@ + detail
    }
}

/// The message announcing `item`, whose cleaned description is `description`;
/// `None` when the item lacks its start time or its late-submission flag.
pub fn item_message(item: &UndoneListItem, description: &str) -> (r: Option<String>)
    ensures
        r is None <==> item.start_time is None || item.is_overtime_commit is None,
        r matches Some(t) ==> t@ == message_text(
            *item,
            item.start_time->0@,
            item.is_overtime_commit->0,
            trim_of(description@),
        ),
{
    let start = match &item.start_time {
        Some(s) => s,
        None => return None,
    };
    let overtime = match item.is_overtime_commit {
        Some(b) => b,
        None => return None,
    };
    let mut msg = String::from_str("<b>❤️小助手提醒你写作业啦！</b>\n\n");
    let ghost head = msg@;
    match &item.course_info {
        Some(c) => {
            msg.append("<b>课程</b>：");
            msg.append(c.name.as_str());
            msg.append("\n");
        },
        None => {},
    }
    msg.append("<b>作业</b>：");
    msg.append(item.activity_name.as_str());
    msg.append("\n<b>开始时间</b>：");
    msg.append(start.as_str());
    msg.append("\n<b>结束时间</b>：");
    msg.append(item.end_time.as_str());
    msg.append("\n<b>能否补交</b>：");
    if overtime {
        msg.append("能");
    } else {
        msg.append("否");
    }
    let detail = trim(description);
    if detail.unicode_len() != 0 {
        msg.append("\n\n<b>详细：</b>\n\n");
        msg.append(detail);
    }
    assert(msg@ =~= message_text(*item, start@, overtime, trim_of(description@)));
    Some(msg)
}

/// One outgoing chat post: its text and the images to attach.
pub struct TelegramPost {
    pub text: String,
    pub image_urls: Vec<String>,
}

/// A chat sink: a bot token and the chat it writes to.
pub struct Telegram {
    token: String,
    chat_id: String,
}

impl Telegram {
    /// The bot token.
    pub closed spec fn token_view(&self) -> Seq<char> {
        self.token@
    }

    /// The chat written to.
    pub closed spec fn chat_view(&self) -> Seq<char> {
        self.chat_id@
    }

    /// A sink for the bot `token` writing to `chat_id`.
    pub fn new(token: String, chat_id: String) -> (r: Self)
        ensures
            r.token_view() == token@,
            r.chat_view() == chat_id@,
    {
        Self { token, chat_id }
    }

    /// The chat written to.
    pub fn chat_id(&self) -> (r: &str)
        ensures
            r@ == self.chat_view(),
    {
        self.chat_id.as_str()
    }

    /// The endpoint for a text message.
    pub fn send_message_url(&self) -> (r: String)
        ensures
            r@ == "https://api.telegram.org/bot"@ + self.token_view() + "/sendMessage"@,
    {
        let mut u = String::from_str("https://api.telegram.org/bot");
        u.append(self.token.as_str());
        u.append("/sendMessage");
        u
    }

    /// The endpoint for a message with images.
    pub fn send_media_group_url(&self) -> (r: String)
        ensures
            r@ == "https://api.telegram.org/bot"@ + self.token_view() + "/sendMediaGroup"@,
    {
        let mut u = String::from_str("https://api.telegram.org/bot");
        u.append(self.token.as_str());
        u.append("/sendMediaGroup");
        u
    }

    /// The posts announcing the items of `list`, one per item and in order:
    /// each has the item's message over its cleaned description and the
    /// description's images. `None` when an item cannot be announced (no start
    /// time, no late-submission flag, or a description that cannot be cleaned).
    pub fn render(&self, list: &UndoneList) -> (r: Option<Vec<TelegramPost>>)
        ensures
            r matches Some(posts) ==> posts@.len() == list.undone_list@.len() && forall|i: int|
                0 <= i < posts@.len() ==> #[trigger] post_for(list.undone_list@[i], posts@[i]),
            r is None <==> exists|i: int|
                0 <= i < list.undone_list@.len() && !renderable(#[trigger] list.undone_list@[i]),
    {
        let items = &list.undone_list;
        let mut posts: Vec<TelegramPost> = Vec::new();
        let mut i: usize = 0;
        while i < items.len()
            invariant
                items@ == list.undone_list@,
                i <= items@.len(),
                posts@.len() == i,
                forall|j: int| 0 <= j < i ==> #[trigger] post_for(items@[j], posts@[j]),
                forall|j: int| 0 <= j < i ==> renderable(#[trigger] items@[j]),
            decreases items@.len() - i,
        {
            let item = &items[i];
            let empty = String::new();
            let html = match &item.description {
                Some(d) => d,
                None => &empty,
            };
            assert(html@ == description_html(items@[i as int]));
            let filtered = filter_and_extract_image(html.as_str());
            let (desc, image_urls) = match filtered {
                Some(c) => c,
                None => {
                    assert(!renderable(items@[i as int]));
                    return None;
                },
            };
            assert(cleaned(items@[i as int]) == (desc@, views(image_urls@)));
            let text = match item_message(item, desc.as_str()) {
                Some(t) => t,
                None => {
                    assert(!renderable(items@[i as int]));
                    return None;
                },
            };
            let post = TelegramPost { text, image_urls };
            assert(post_for(items@[i as int], post));
            posts.push(post);
            i += 1;
        }
        Some(posts)
    }
}

/// The description an item is announced with: its own, or nothing.
pub open spec fn description_html(item: UndoneListItem) -> Seq<char> {
    match item.description {
        Some(d) => d@,
        None => Seq::empty(),
    }
}

/// Whether an item can be announced.
pub open spec fn renderable(item: UndoneListItem) -> bool {
    &&& item.start_time is Some
    &&& item.is_overtime_commit is Some
    &&& sanitize(html_tokens_of(description_html(item))) is Some
}

/// The cleaned description of an item and its image sources.
pub open spec fn cleaned(item: UndoneListItem) -> (Seq<char>, Seq<Seq<char>>) {
    match sanitize(html_tokens_of(description_html(item))) {
        Some(c) => c,
        None => (Seq::empty(), Seq::empty()),
    }
}

/// `post` announces `item`.
pub open spec fn post_for(item: UndoneListItem, post: TelegramPost) -> bool {
    &&& renderable(item)
    &&& views(post.image_urls@) == cleaned(item).1
    &&& post.text@ == message_text(
        item,
        item.start_time->0@,
        item.is_overtime_commit->0,
        trim_of(cleaned(item).0),
    )
}

} // verus!

