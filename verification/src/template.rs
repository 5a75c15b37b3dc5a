//! Composition of a document from a base layout, a fragment and a data set.
//!
//! Parsing and rendering are done by the `liquid` crate. What it renders for a
//! template and a data set of one text depends on these alone and has a name
//! here; the embedding and the built-in page are stated over that name. A data
//! set given by the caller may hold mappings, which the crate keeps in hash maps
//! and walks in no fixed order, so of a fragment rendered against such data only
//! the stage and the cause of a failure are stated.
//!
//! Templates are logic-less: text with slots that name a value. A text that asks
//! for more (a tag, a filter, a string or an index in a slot, a number too long
//! for 64 bits) is refused before the `liquid` crate sees it, as a text that does
//! not parse; several of the crate's tags and filters panic on numbers they
//! cannot hold.

use vstd::prelude::*;
use vstd::string::{StringExecFns, StringSliceAdditionalSpecFns};
use vstd::utf8::encode_utf8;

verus! {

/// A parsed template of the `liquid` crate, carried through unread.
#[verifier::external_type_specification]
#[verifier::external_body]
pub struct ExTemplate(liquid::Template);

/// A data set of the `liquid` crate, carried through unread.
#[verifier::external_type_specification]
#[verifier::external_body]
pub struct ExObject(liquid::Object);

/// Error of the `liquid` crate, carried through unread.
#[verifier::external_type_specification]
#[verifier::external_body]
pub struct ExLiquidError(liquid::Error);

/// A JSON value of the `serde_json` crate, carried through unread.
#[verifier::external_type_specification]
#[verifier::external_body]
pub struct ExJsonValue(serde_json::Value);

/// The template that failed.
#[derive(Clone, Copy, Debug, PartialEq, Eq, Structural)]
pub enum TemplateStage {
    /// The fragment supplied by the caller.
    User,
    /// The base layout that embeds the rendered fragment.
    Base,
}

/// Why a template failed.
#[derive(Clone, Copy, Debug, PartialEq, Eq, Structural)]
pub enum TemplateCause {
    /// The template text is not text with plain slots, or does not parse.
    Syntax,
    /// The data set is not a mapping from names to values.
    Data,
    /// The template parsed and could not be rendered against the data set, as
    /// when it names a variable that the data set lacks.
    UndefinedVariable,
    /// The template text could not be read from its store.
    Io,
}

/// A failed composition. No text is returned beside it.
#[derive(Clone, Copy, Debug, PartialEq, Eq, Structural)]
pub struct TemplateError {
    pub stage: TemplateStage,
    pub cause: TemplateCause,
}

/// A byte that may stand in a slot beside digits: an ASCII letter, `_`, `.`,
/// `-`, a space, a line feed or a carriage return.
pub open spec fn is_name_byte(b: u8) -> bool {
    (0x41 <= b <= 0x5a) || (0x61 <= b <= 0x7a) || b == 0x5f || b == 0x2e || b == 0x2d || b == 0x20
        || b == 0x0a || b == 0x0d
}

/// An ASCII digit.
pub open spec fn is_digit_byte(b: u8) -> bool {
    0x30 <= b <= 0x39
}

/// The two bytes at `i` are `{` and `second`.
pub open spec fn opens_with(text: Seq<u8>, i: int, second: u8) -> bool {
    i + 1 < text.len() && text[i] == 0x7b && text[i + 1] == second
}

/// The two bytes at `i` are `}}`.
pub open spec fn closes_at(text: Seq<u8>, i: int) -> bool {
    i + 1 < text.len() && text[i] == 0x7d && text[i + 1] == 0x7d
}

/// Whether the bytes from `i` on are text with plain slots, read from outside a
/// slot or from inside one after `digits` digits in a row.
///
/// Outside a slot any byte may stand, but `{%` opens a tag and is refused, and
/// `{{` opens a slot. Inside a slot `}}` closes it; up to there only name bytes
/// and digits may stand, no more than 18 digits in a row. A slot left open at the
/// end is refused.
pub open spec fn plain_from(text: Seq<u8>, i: int, inside: bool, digits: int) -> bool
    decreases text.len() - i,
{
    if i >= text.len() {
        !inside
    } else if !inside {
        if opens_with(text, i, 0x25) {
            false
        } else if opens_with(text, i, 0x7b) {
            plain_from(text, i + 2, true, 0)
        } else {
            plain_from(text, i + 1, false, 0)
        }
    } else if closes_at(text, i) {
        plain_from(text, i + 2, false, 0)
    } else if is_digit_byte(text[i]) {
        digits < 18 && plain_from(text, i + 1, true, digits + 1)
    } else if is_name_byte(text[i]) {
        plain_from(text, i + 1, true, 0)
    } else {
        false
    }
}

/// A template that only substitutes: text with plain slots.
pub open spec fn substitutes_only(text: Seq<char>) -> bool {
    plain_from(encode_utf8(text), 0, false, 0)
}

/// Tests whether a template only substitutes.
pub fn is_substitution_template(text: &str) -> (r: bool)
    ensures
        r == substitutes_only(text@),
{
    let bytes = text.as_bytes();
    let n = bytes.len();
    let mut i: usize = 0;
    let mut inside = false;
    let mut digits: u8 = 0;
    while i < n
        invariant
            i <= n,
            n == bytes@.len(),
            bytes@ == encode_utf8(text@),
            digits <= 18,
            substitutes_only(text@) == plain_from(bytes@, i as int, inside, digits as int),
        decreases n - i,
    {
        let b = bytes[i];
        let pair = n - i >= 2;
        if !inside {
            if pair && b == 0x7b && bytes[i + 1] == 0x25 {
                return false;
            } else if pair && b == 0x7b && bytes[i + 1] == 0x7b {
                inside = true;
                digits = 0;
                i = i + 2;
            } else {
                digits = 0;
                i = i + 1;
            }
        } else if pair && b == 0x7d && bytes[i + 1] == 0x7d {
            inside = false;
            digits = 0;
            i = i + 2;
        } else if 0x30 <= b && b <= 0x39 {
            if digits >= 18 {
                return false;
            }
            digits = digits + 1;
            i = i + 1;
        } else if (0x41 <= b && b <= 0x5a) || (0x61 <= b && b <= 0x7a) || b == 0x5f || b == 0x2e
            || b == 0x2d || b == 0x20 || b == 0x0a || b == 0x0d {
            digits = 0;
            i = i + 1;
        } else {
            return false;
        }
    }
    !inside
}

/// Text without an opening brace is text with plain slots: it has no slot and no
/// tag.
pub proof fn lemma_text_without_braces_is_plain(text: Seq<u8>, i: int)
    requires
        0 <= i,
        forall|k: int| 0 <= k < text.len() ==> text[k] != 0x7b,
    ensures
        plain_from(text, i, false, 0),
    decreases text.len() - i,
{
    if i < text.len() {
        lemma_text_without_braces_is_plain(text, i + 1);
    }
}

/// Text with plain slots opens no tag: `{%` stands nowhere in what is left to
/// read.
pub proof fn lemma_plain_text_has_no_tag(text: Seq<u8>, i: int, inside: bool, digits: int, k: int)
    requires
        0 <= i <= k,
        plain_from(text, i, inside, digits),
    ensures
        !opens_with(text, k, 0x25),
    decreases text.len() - i,
{
    if i < text.len() && opens_with(text, k, 0x25) {
        if !inside {
            if opens_with(text, i, 0x7b) {
                if k == i + 1 {
                    assert(plain_from(text, i + 2, true, 0));
                    assert(!closes_at(text, i + 2));
                } else {
                    lemma_plain_text_has_no_tag(text, i + 2, true, 0, k);
                }
            } else {
                lemma_plain_text_has_no_tag(text, i + 1, false, 0, k);
            }
        } else if closes_at(text, i) {
            lemma_plain_text_has_no_tag(text, i + 2, false, 0, k);
        } else if is_digit_byte(text[i]) {
            lemma_plain_text_has_no_tag(text, i + 1, true, digits + 1, k);
        } else {
            lemma_plain_text_has_no_tag(text, i + 1, true, 0, k);
        }
    }
}

/// Whether the `liquid` parser with its standard tags, blocks and filters
/// accepts a template text.
pub uninterp spec fn liquid_parses(source: Seq<char>) -> bool;

/// Whether the `liquid` crate takes a JSON value for a data set, which is a
/// mapping from names to values.
pub uninterp spec fn is_data_set(data: serde_json::Value) -> bool;

/// What the `liquid` crate renders for the template parsed from `source`
/// against the data set that holds `text` under `name` and nothing else; `None`
/// where it fails to render.
pub uninterp spec fn liquid_rendering(source: Seq<char>, name: Seq<char>, text: Seq<char>) -> Option<
    Seq<char>,
>;

/// A template text that is taken: it only substitutes, and it parses.
pub open spec fn accepted(source: Seq<char>) -> bool {
    substitutes_only(source) && liquid_parses(source)
}

/// A parsed template, with the text it was parsed from.
pub struct ParsedTemplate {
    source: String,
    compiled: liquid::Template,
}

impl ParsedTemplate {
    /// The text that the template was parsed from.
    pub closed spec fn source(&self) -> Seq<char> {
        self.source@
    }
}

/// View of what a rendering attempt returned.
pub open spec fn rendered_view(r: Result<String, liquid::Error>) -> Option<Seq<char>> {
    match r {
        Ok(text) => Some(text@),
        Err(_) => None,
    }
}

/// View of a rendered text or the failure in its place.
pub open spec fn text_result(r: Result<String, TemplateError>) -> Result<
    Seq<char>,
    TemplateError,
> {
    match r {
        Ok(text) => Ok(text@),
        Err(e) => Err(e),
    }
}

/// Builds a parser with `liquid::ParserBuilder::with_stdlib` and `build`, and
/// calls `liquid::Parser::parse` on the text.
///
/// Trusted: whether the text is accepted depends on the text alone. The parser
/// panics on an integer too long for 64 bits; of a text that only substitutes no
/// number has more than 18 digits.
#[verifier::external_body]
fn parse_template(source: &str) -> (r: Result<ParsedTemplate, liquid::Error>)
    requires
        substitutes_only(source@),
    ensures
        r is Ok == liquid_parses(source@),
        r matches Ok(template) ==> template.source() == source@,
{
    let compiled = liquid::ParserBuilder::with_stdlib().build()?.parse(source)?;
    Ok(ParsedTemplate { source: source.to_owned(), compiled })
}

/// Calls `liquid::to_object` on a JSON value.
///
/// Trusted: whether the value is taken depends on the value alone.
#[verifier::external_body]
fn to_object(data: &serde_json::Value) -> (r: Result<liquid::Object, liquid::Error>)
    ensures
        r is Ok == is_data_set(*data),
{
    liquid::to_object(data)
}

/// Calls `liquid::Template::render` with a data set given by the caller.
/// Nothing is claimed of the outcome: the data set may hold mappings, which are
/// walked in no fixed order.
///
/// Several filters and tags of the crate panic on numbers, which may come from
/// the data set; a template that only substitutes names none of them.
#[verifier::external_body]
fn render_template(template: &ParsedTemplate, globals: &liquid::Object) -> (r: Result<
    String,
    liquid::Error,
>)
    requires
        substitutes_only(template.source()),
{
    template.compiled.render(globals)
}

/// Makes a data set of one entry with `liquid::Object::new` and
/// `liquid::Object::insert`, the text as a scalar under the name, and calls
/// `liquid::Template::render` with it.
///
/// Trusted: the outcome depends on the template's text, the name and the text
/// alone. A template that only substitutes applies no filter, so nothing in it
/// reads the clock, and a data set of one entry is walked in one order only.
#[verifier::external_body]
fn render_binding(template: &ParsedTemplate, name: &str, text: &str) -> (r: Result<
    String,
    liquid::Error,
>)
    requires
        substitutes_only(template.source()),
    ensures
        rendered_view(r) == liquid_rendering(template.source(), name@, text@),
{
    let mut globals = liquid::Object::new();
    globals.insert(name.to_owned().into(), liquid::model::Value::scalar(text.to_owned()));
    template.compiled.render(&globals)
}

/// The failure of `stage` for `cause`.
pub open spec fn failure(stage: TemplateStage, cause: TemplateCause) -> TemplateError {
    TemplateError { stage, cause }
}

/// What a stage returns for each outcome of rendering its parsed template: the
/// rendered text, or the failure of that stage to render.
pub fn rendered_or_failure(stage: TemplateStage, rendered: Result<String, liquid::Error>) -> (r:
    Result<String, TemplateError>)
    ensures
        match rendered {
            Ok(text) => r == Ok::<String, TemplateError>(text),
            Err(_) => r == Err::<String, TemplateError>(
                failure(stage, TemplateCause::UndefinedVariable),
            ),
        },
{
    match rendered {
        Ok(text) => Ok(text),
        Err(_) => Err(TemplateError { stage, cause: TemplateCause::UndefinedVariable }),
    }
}

/// Parses a template text for a stage: refused where it does more than
/// substitute, or where it does not parse.
fn parse_stage(stage: TemplateStage, source: &str) -> (r: Result<ParsedTemplate, TemplateError>)
    ensures
        r is Ok == accepted(source@),
        r matches Ok(template) ==> template.source() == source@,
        r matches Err(e) ==> e == failure(stage, TemplateCause::Syntax),
{
    if !is_substitution_template(source) {
        return Err(TemplateError { stage, cause: TemplateCause::Syntax });
    }
    match parse_template(source) {
        Ok(template) => Ok(template),
        Err(_) => Err(TemplateError { stage, cause: TemplateCause::Syntax }),
    }
}

/// What a stage comes to that renders a template text against one text under
/// one name: the stage's syntax failure where the text is not accepted, else
/// what the `liquid` crate renders, or the stage's failure to render.
pub open spec fn stage_rendering(
    stage: TemplateStage,
    source: Seq<char>,
    name: Seq<char>,
    text: Seq<char>,
) -> Result<Seq<char>, TemplateError> {
    if !accepted(source) {
        Err(failure(stage, TemplateCause::Syntax))
    } else {
        match liquid_rendering(source, name, text) {
            Some(rendered) => Ok(rendered),
            None => Err(failure(stage, TemplateCause::UndefinedVariable)),
        }
    }
}

/// Parses `source` and renders it against `text` under `name`, as the given
/// stage.
fn render_stage(stage: TemplateStage, source: &str, name: &str, text: &str) -> (r: Result<
    String,
    TemplateError,
>)
    ensures
        text_result(r) == stage_rendering(stage, source@, name@, text@),
{
    match parse_stage(stage, source) {
        Ok(template) => rendered_or_failure(stage, render_binding(&template, name, text)),
        Err(e) => Err(e),
    }
}

/// What holds of a rendered fragment: a text that is not accepted fails for
/// syntax whatever the data; an accepted text with data that is no data set
/// fails for the data; otherwise text is returned or rendering fails. Every
/// failure is of the user stage.
pub open spec fn fragment_outcome(
    source: Seq<char>,
    data: serde_json::Value,
    r: Result<Seq<char>, TemplateError>,
) -> bool {
    if !accepted(source) {
        r == Err::<Seq<char>, TemplateError>(failure(TemplateStage::User, TemplateCause::Syntax))
    } else if !is_data_set(data) {
        r == Err::<Seq<char>, TemplateError>(failure(TemplateStage::User, TemplateCause::Data))
    } else {
        r matches Err(e) ==> e == failure(TemplateStage::User, TemplateCause::UndefinedVariable)
    }
}

/// Renders a user template with the provided data.
pub fn render_user_template(user_template: &str, user_data: serde_json::Value) -> (r: Result<
    String,
    TemplateError,
>)
    ensures
        fragment_outcome(user_template@, user_data, text_result(r)),
{
    match parse_stage(TemplateStage::User, user_template) {
        Ok(template) => match to_object(&user_data) {
            Ok(globals) => rendered_or_failure(
                TemplateStage::User,
                render_template(&template, &globals),
            ),
            Err(_) => Err(
                TemplateError { stage: TemplateStage::User, cause: TemplateCause::Data },
            ),
        },
        Err(e) => Err(e),
    }
}

/// The one entry of the data set that the base layout is rendered against: the
/// rendered fragment, under the name of the embed slot.
pub fn embed_binding(rendered_fragment: &str) -> (r: (String, String))
    ensures
        r.0@ == "embed"@,
        r.1@ == rendered_fragment@,
{
    (String::from_str("embed"), String::from_str(rendered_fragment))
}

/// View of a layout that may be missing.
pub open spec fn layout_view(base_layout: Option<&str>) -> Option<Seq<char>> {
    match base_layout {
        Some(layout) => Some(layout@),
        None => None,
    }
}

/// The document that a rendered fragment makes with a base layout: the layout
/// rendered, as the base stage, against the fragment under the name `embed`;
/// the base stage's failure to read where there is no layout.
pub open spec fn embedded(base_layout: Option<Seq<char>>, fragment: Seq<char>) -> Result<
    Seq<char>,
    TemplateError,
> {
    match base_layout {
        Some(layout) => stage_rendering(TemplateStage::Base, layout, "embed"@, fragment),
        None => Err(failure(TemplateStage::Base, TemplateCause::Io)),
    }
}

/// The document that the outcome of a fragment makes with a base layout: the
/// fragment's failure where it failed, whatever the layout; else the fragment
/// embedded.
pub open spec fn composed(
    base_layout: Option<Seq<char>>,
    fragment: Result<Seq<char>, TemplateError>,
) -> Result<Seq<char>, TemplateError> {
    match fragment {
        Ok(text) => embedded(base_layout, text),
        Err(e) => Err(e),
    }
}

/// Embeds a rendered fragment into the base layout. `base_layout` is `None`
/// where the layout could not be read.
pub fn embed(base_layout: Option<&str>, rendered_fragment: &str) -> (r: Result<
    String,
    TemplateError,
>)
    ensures
        text_result(r) == embedded(layout_view(base_layout), rendered_fragment@),
{
    match base_layout {
        Some(layout) => {
            let (name, text) = embed_binding(rendered_fragment);
            render_stage(TemplateStage::Base, layout, name.as_str(), text.as_str())
        },
        None => Err(TemplateError { stage: TemplateStage::Base, cause: TemplateCause::Io }),
    }
}

/// Makes the document from the outcome of the fragment: a fragment that failed
/// fails the composition as it failed, and the layout is not looked at; a
/// rendered fragment is embedded.
pub fn embed_outcome(base_layout: Option<&str>, fragment: Result<String, TemplateError>) -> (r:
    Result<String, TemplateError>)
    ensures
        text_result(r) == composed(layout_view(base_layout), text_result(fragment)),
        fragment matches Err(e) ==> r == Err::<String, TemplateError>(e),
{
    match fragment {
        Ok(user_defined) => embed(base_layout, user_defined.as_str()),
        Err(e) => Err(e),
    }
}

/// Renders a user template with the provided data and embeds the result in the
/// base layout. `base_layout` is `None` where the layout could not be read.
///
/// The result is the composition of the layout with an outcome of the fragment;
/// which outcome an accepted fragment has against a data set is the `liquid`
/// crate's to say.
pub fn render_user_template_embedded(
    base_layout: Option<&str>,
    user_template: &str,
    user_data: serde_json::Value,
) -> (r: Result<String, TemplateError>)
    ensures
        exists|fragment: Result<Seq<char>, TemplateError>|
            #![trigger composed(layout_view(base_layout), fragment)]
            fragment_outcome(user_template@, user_data, fragment) && text_result(r) == composed(
                layout_view(base_layout),
                fragment,
            ),
{
    let fragment = render_user_template(user_template, user_data);
    let ghost outcome = text_result(fragment);
    let r = embed_outcome(base_layout, fragment);
    assert(fragment_outcome(user_template@, user_data, outcome) && text_result(r) == composed(
        layout_view(base_layout),
        outcome,
    ));
    r
}

/// The fragment of the built-in page: a title bar that shows the message.
pub const BASIC_FRAGMENT: &'static str =
    "<div class=\"title_bar\">\n        <span class=\"title\">{{ message }}</span>\n        </div>";

/// The message that the built-in page shows.
pub const BASIC_MESSAGE: &'static str = "hello world";

/// The one entry of the data set that the built-in fragment is rendered
/// against: the message, under the name `message`.
pub fn basic_binding() -> (r: (String, String))
    ensures
        r.0@ == "message"@,
        r.1@ == BASIC_MESSAGE@,
{
    (String::from_str("message"), String::from_str(BASIC_MESSAGE))
}

/// The built-in page over a base layout: the built-in fragment rendered, as the
/// user stage, against the message under the name `message`, and composed with
/// the layout.
pub open spec fn basic_page(base_layout: Option<Seq<char>>) -> Result<Seq<char>, TemplateError> {
    composed(
        base_layout,
        stage_rendering(TemplateStage::User, BASIC_FRAGMENT@, "message"@, BASIC_MESSAGE@),
    )
}

/// Composes the built-in page over the base layout. `base_layout` is `None`
/// where the layout could not be read.
pub fn basic_template(base_layout: Option<&str>) -> (r: Result<String, TemplateError>)
    ensures
        text_result(r) == basic_page(layout_view(base_layout)),
{
    let (name, text) = basic_binding();
    let fragment = render_stage(
        TemplateStage::User,
        BASIC_FRAGMENT,
        name.as_str(),
        text.as_str(),
    );
    embed_outcome(base_layout, fragment)
}

/// A composition fails in the user stage exactly as its fragment failed,
/// whatever the layout holds, and returns no document then; where its fragment
/// did not fail, every failure is of the base stage.
pub proof fn lemma_fragment_failure_is_the_compositions(
    base_layout: Option<Seq<char>>,
    fragment: Result<Seq<char>, TemplateError>,
)
    ensures
        fragment matches Err(e) ==> composed(base_layout, fragment) == Err::<
            Seq<char>,
            TemplateError,
        >(e),
        fragment is Ok ==> (composed(base_layout, fragment) matches Err(e) ==> e.stage
            == TemplateStage::Base),
{
}

/// What a composition can come to, by the fragment and its data: the fragment's
/// syntax or data failure where it has one, whatever the layout; else a
/// document, the fragment's failure to render, or a failure of the base stage.
pub proof fn lemma_composition_failures(
    base_layout: Option<Seq<char>>,
    user_template: Seq<char>,
    user_data: serde_json::Value,
    fragment: Result<Seq<char>, TemplateError>,
)
    requires
        fragment_outcome(user_template, user_data, fragment),
    ensures
        !accepted(user_template) ==> composed(base_layout, fragment) == Err::<
            Seq<char>,
            TemplateError,
        >(failure(TemplateStage::User, TemplateCause::Syntax)),
        accepted(user_template) && !is_data_set(user_data) ==> composed(base_layout, fragment)
            == Err::<Seq<char>, TemplateError>(failure(TemplateStage::User, TemplateCause::Data)),
        composed(base_layout, fragment) matches Err(e) ==> (e.stage == TemplateStage::User
            <==> fragment is Err),
        composed(base_layout, fragment) is Ok ==> accepted(user_template) && is_data_set(user_data)
            && (base_layout matches Some(layout) && accepted(layout)),
{
}

} // verus!
