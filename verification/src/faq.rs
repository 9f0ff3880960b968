//! The questions and answers of the FAQ page.

use vstd::prelude::*;
use vstd::string::*;

verus! {

/// The link to the description of the curve that keys live on.
pub open spec fn secp_link() -> Seq<char> {
    "<a class=\"has-text-info\" href=\"https://en.bitcoin.it/wiki/Secp256k1\">Secp256k1</a>"@
}

/// The questions and answers, in the order they are shown.
pub open spec fn faq_text() -> Seq<(Seq<char>, Seq<char>)> {
    seq![
        ("Why does this site reload at every interaction?"@, "Because this site works entierly without JavaScript!"@),
        ("Why no JavaScript?"@, "To make it impossible to inject anykind of code via third party software."@),
        (
            "Why do i have to download this cryptic key?"@,
            "Because this is your private key. We use "@ + secp_link() + " Public and Private key encryption."@,
        ),
        ("Are you storing my private key?"@, "No we are not storing your private key."@),
        (
            "I have lost my private key. What can i do?"@,
            "Nothing! Your account is <b>LOST</b>!\n            <br>\n            I mean like in lost, lost. There is no way we are able to fix that."@,
        ),
    ]
}

fn entry(q: &str, a: String) -> (e: (String, String))
    ensures
        e.0@ == q@,
        e.1@ == a@,
{
    (q.to_owned(), a)
}

/// The questions and answers of the FAQ page, in the order they are shown.
pub fn faq() -> (faqs: Vec<(String, String)>)
    ensures
        faqs@.map_values(|e: (String, String)| (e.0@, e.1@)) == faq_text(),
{
    let secp = "<a class=\"has-text-info\" href=\"https://en.bitcoin.it/wiki/Secp256k1\">Secp256k1</a>";
    let mut key_answer = "Because this is your private key. We use ".to_owned();
    key_answer.append(secp);
    key_answer.append(" Public and Private key encryption.");
    let faqs = vec![
        entry("Why does this site reload at every interaction?", "Because this site works entierly without JavaScript!".to_owned()),
        entry("Why no JavaScript?", "To make it impossible to inject anykind of code via third party software.".to_owned()),
        entry("Why do i have to download this cryptic key?", key_answer),
        entry("Are you storing my private key?", "No we are not storing your private key.".to_owned()),
        entry(
            "I have lost my private key. What can i do?",
            "Nothing! Your account is <b>LOST</b>!\n            <br>\n            I mean like in lost, lost. There is no way we are able to fix that.".to_owned(),
        ),
    ];
    assert(faqs@.map_values(|e: (String, String)| (e.0@, e.1@)) =~= faq_text());
    faqs
}

} // verus!
