//! What the values that functions take and return stand for: in every case what they hold, and
//! nothing is passed over.

use crate::json::Json;
use crate::sse::Emission;
use crate::tabs::BrowserTab;
use crate::{
    bridge, combined_stream, conversation, http, image, provider, reply, retry, sse, tabs, text,
};
use vstd::prelude::*;
use vstd::string::*;

verus! {

/// An optional text, number or image stands for what it holds.
pub proof fn law_options_stand_for_what_they_hold(s: &str, n: u64, bytes: &[u8])
    ensures
        text::optional(Some(s)) == Some(s@),
        text::optional(None) is None,
        retry::optional_number(Some(n)) == Some(n as nat),
        retry::optional_number(None) is None,
        conversation::optional_bytes(Some(bytes)) == Some(bytes@),
        conversation::optional_bytes(None) is None,
{
}

/// A result stands for the text or the message that it holds.
pub proof fn law_results_stand_for_what_they_hold(a: String, b: String, value: Json)
    ensures
        reply::result_view(Ok(a)) == Ok::<Seq<char>, Seq<char>>(a@),
        reply::result_view(Err(a)) == Err::<Seq<char>, Seq<char>>(a@),
        sse::result_view(Some(Ok(a))) == Some(Ok::<Seq<char>, Seq<char>>(a@)),
        sse::result_view(Some(Err(a))) == Some(Err::<Seq<char>, Seq<char>>(a@)),
        sse::result_view(None) is None,
        combined_stream::combined_result_view(Some(Ok((a, b)))) == Some(
            Ok::<(Seq<char>, Seq<char>), Seq<char>>((a@, b@)),
        ),
        combined_stream::combined_result_view(Some(Err(a))) == Some(
            Err::<(Seq<char>, Seq<char>), Seq<char>>(a@),
        ),
        combined_stream::combined_result_view(None) is None,
        bridge::outcome_view(Ok(value)) is Ok,
        bridge::outcome_view(Ok(value))->Ok_0 == value@,
        bridge::outcome_view(Err(a)) is Err,
        bridge::outcome_view(Err(a))->Err_0 == a@,
{
}

/// A row stands for as many values as it has items, each of them for the item in its place.
pub proof fn law_rows_stand_for_their_items(
    emissions: Seq<Emission>,
    row: Seq<BrowserTab>,
    strings: Seq<String>,
    i: int,
)
    ensures
        sse::emissions_view(emissions).len() == emissions.len(),
        0 <= i < emissions.len() ==> sse::emissions_view(emissions)[i] == emissions[i]@,
        tabs::tabs_view(row).len() == row.len(),
        0 <= i < row.len() ==> tabs::tabs_view(row)[i] == row[i]@,
        provider::texts(strings).len() == strings.len(),
        0 <= i < strings.len() ==> provider::texts(strings)[i] == strings[i]@,
{
}

/// Bytes that are UTF-8 are read as the text that they encode, and the length of a text in bytes is
/// that of its encoding.
pub proof fn law_utf8_is_read_as_it_is(bytes: Seq<u8>, s: Seq<char>)
    ensures
        http::reads_utf8(bytes) <==> (vstd::utf8::valid_utf8(bytes) ==> text::lossy_text(bytes)
            == vstd::utf8::decode_utf8(bytes)),
        text::utf8_len(s) == vstd::utf8::encode_utf8(s).len(),
{
}

/// A status code tells of success from 200 to 299, and is worth another try at 429 and from 500 to
/// 599.
pub proof fn law_status_codes_have_their_meaning(status: u16)
    ensures
        retry::is_success(status) <==> 200 <= status && status <= 299,
        retry::retryable_status(status) <==> status == 429 || (500 <= status && status <= 599),
{
}

/// The text of an image takes four characters for each three bytes begun.
pub proof fn law_image_fits_where_its_text_does(groups: int)
    requires
        groups >= 0,
    ensures
        image::encodable(3 * groups) <==> 4 * groups <= isize::MAX,
        image::encodable(3 * groups + 1) <==> 4 * (groups + 1) <= isize::MAX,
        image::encodable(3 * groups + 2) <==> 4 * (groups + 1) <= isize::MAX,
{
}

/// Capital letters of ASCII become small ones, and every other character stays as it is.
pub proof fn law_letters_become_small(c: char)
    ensures
        'A' <= c && c <= 'Z' ==> text::lower_char(c) as int == c as int + 32,
        c < 'A' || c > 'Z' ==> text::lower_char(c) == c,
{
}

}
