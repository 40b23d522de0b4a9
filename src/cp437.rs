use vstd::prelude::*;

verus! {

/// The code of `c` in code page 437, the index of its image in a font atlas.
/// Printable ASCII keeps its own code; a character the code page lacks gets 0.
pub open spec fn cp437(c: char) -> u16 {
    if ' ' <= c && c <= '~' {
        c as u16
    } else {
        match c {
            '☺' => 1,
            '☻' => 2,
            '♥' => 3,
            '♦' => 4,
            '♣' => 5,
            '♠' => 6,
            '•' => 7,
            '◘' => 8,
            '○' => 9,
            '◙' => 10,
            '♂' => 11,
            '♀' => 12,
            '♪' => 13,
            '♫' => 14,
            '☼' => 15,
            '►' => 16,
            '◄' => 17,
            '↕' => 18,
            '‼' => 19,
            '¶' => 20,
            '§' => 21,
            '▬' => 22,
            '↨' => 23,
            '↑' => 24,
            '↓' => 25,
            '→' => 26,
            '←' => 27,
            '∟' => 28,
            '↔' => 29,
            '▲' => 30,
            '▼' => 31,
            '⌂' => 127,
            'Ç' => 128,
            'ü' => 129,
            'é' => 130,
            'â' => 131,
            'ä' => 132,
            'à' => 133,
            'å' => 134,
            'ç' => 135,
            'ê' => 136,
            'ë' => 137,
            'è' => 138,
            'ï' => 139,
            'î' => 140,
            'ì' => 141,
            'Ä' => 142,
            'Å' => 143,
            'É' => 144,
            'æ' => 145,
            'Æ' => 146,
            'ô' => 147,
            'ö' => 148,
            'ò' => 149,
            'û' => 150,
            'ù' => 151,
            'ÿ' => 152,
            'Ö' => 153,
            'Ü' => 154,
            '¢' => 155,
            '£' => 156,
            '¥' => 157,
            '₧' => 158,
            'ƒ' => 159,
            'á' => 160,
            'í' => 161,
            'ó' => 162,
            'ú' => 163,
            'ñ' => 164,
            'Ñ' => 165,
            'ª' => 166,
            'º' => 167,
            '¿' => 168,
            '⌐' => 169,
            '¬' => 170,
            '½' => 171,
            '¼' => 172,
            '¡' => 173,
            '«' => 174,
            '»' => 175,
            '░' => 176,
            '▒' => 177,
            '▓' => 178,
            '│' => 179,
            '┤' => 180,
            '╡' => 181,
            '╢' => 182,
            '╖' => 183,
            '╕' => 184,
            '╣' => 185,
            '║' => 186,
            '╗' => 187,
            '╝' => 188,
            '╜' => 189,
            '╛' => 190,
            '┐' => 191,
            '└' => 192,
            '┴' => 193,
            '┬' => 194,
            '├' => 195,
            '─' => 196,
            '┼' => 197,
            '╞' => 198,
            '╟' => 199,
            '╚' => 200,
            '╔' => 201,
            '╩' => 202,
            '╦' => 203,
            '╠' => 204,
            '═' => 205,
            '╬' => 206,
            '╧' => 207,
            '╨' => 208,
            '╤' => 209,
            '╥' => 210,
            '╙' => 211,
            '╘' => 212,
            '╒' => 213,
            '╓' => 214,
            '╫' => 215,
            '╪' => 216,
            '┘' => 217,
            '┌' => 218,
            '█' => 219,
            '▄' => 220,
            '▌' => 221,
            '▐' => 222,
            '▀' => 223,
            'α' => 224,
            'ß' => 225,
            'Γ' => 226,
            'π' => 227,
            'Σ' => 228,
            'σ' => 229,
            'µ' => 230,
            'τ' => 231,
            'Φ' => 232,
            'Θ' => 233,
            'Ω' => 234,
            'δ' => 235,
            '∞' => 236,
            'φ' => 237,
            'ε' => 238,
            '∩' => 239,
            '≡' => 240,
            '±' => 241,
            '≥' => 242,
            '≤' => 243,
            '⌠' => 244,
            '⌡' => 245,
            '÷' => 246,
            '≈' => 247,
            '°' => 248,
            '∙' => 249,
            '·' => 250,
            '√' => 251,
            'ⁿ' => 252,
            '²' => 253,
            '■' => 254,
            '\u{a0}' => 255,
            _ => 0,
        }
    }
}

/// Encodes one character in code page 437.
pub fn to_cp437(c: char) -> (r: u16)
    ensures
        r == cp437(c),
{
    if ' ' <= c && c <= '~' {
        c as u16
    } else {
        match c {
            '☺' => 1,
            '☻' => 2,
            '♥' => 3,
            '♦' => 4,
            '♣' => 5,
            '♠' => 6,
            '•' => 7,
            '◘' => 8,
            '○' => 9,
            '◙' => 10,
            '♂' => 11,
            '♀' => 12,
            '♪' => 13,
            '♫' => 14,
            '☼' => 15,
            '►' => 16,
            '◄' => 17,
            '↕' => 18,
            '‼' => 19,
            '¶' => 20,
            '§' => 21,
            '▬' => 22,
            '↨' => 23,
            '↑' => 24,
            '↓' => 25,
            '→' => 26,
            '←' => 27,
            '∟' => 28,
            '↔' => 29,
            '▲' => 30,
            '▼' => 31,
            '⌂' => 127,
            'Ç' => 128,
            'ü' => 129,
            'é' => 130,
            'â' => 131,
            'ä' => 132,
            'à' => 133,
            'å' => 134,
            'ç' => 135,
            'ê' => 136,
            'ë' => 137,
            'è' => 138,
            'ï' => 139,
            'î' => 140,
            'ì' => 141,
            'Ä' => 142,
            'Å' => 143,
            'É' => 144,
            'æ' => 145,
            'Æ' => 146,
            'ô' => 147,
            'ö' => 148,
            'ò' => 149,
            'û' => 150,
            'ù' => 151,
            'ÿ' => 152,
            'Ö' => 153,
            'Ü' => 154,
            '¢' => 155,
            '£' => 156,
            '¥' => 157,
            '₧' => 158,
            'ƒ' => 159,
            'á' => 160,
            'í' => 161,
            'ó' => 162,
            'ú' => 163,
            'ñ' => 164,
            'Ñ' => 165,
            'ª' => 166,
            'º' => 167,
            '¿' => 168,
            '⌐' => 169,
            '¬' => 170,
            '½' => 171,
            '¼' => 172,
            '¡' => 173,
            '«' => 174,
            '»' => 175,
            '░' => 176,
            '▒' => 177,
            '▓' => 178,
            '│' => 179,
            '┤' => 180,
            '╡' => 181,
            '╢' => 182,
            '╖' => 183,
            '╕' => 184,
            '╣' => 185,
            '║' => 186,
            '╗' => 187,
            '╝' => 188,
            '╜' => 189,
            '╛' => 190,
            '┐' => 191,
            '└' => 192,
            '┴' => 193,
            '┬' => 194,
            '├' => 195,
            '─' => 196,
            '┼' => 197,
            '╞' => 198,
            '╟' => 199,
            '╚' => 200,
            '╔' => 201,
            '╩' => 202,
            '╦' => 203,
            '╠' => 204,
            '═' => 205,
            '╬' => 206,
            '╧' => 207,
            '╨' => 208,
            '╤' => 209,
            '╥' => 210,
            '╙' => 211,
            '╘' => 212,
            '╒' => 213,
            '╓' => 214,
            '╫' => 215,
            '╪' => 216,
            '┘' => 217,
            '┌' => 218,
            '█' => 219,
            '▄' => 220,
            '▌' => 221,
            '▐' => 222,
            '▀' => 223,
            'α' => 224,
            'ß' => 225,
            'Γ' => 226,
            'π' => 227,
            'Σ' => 228,
            'σ' => 229,
            'µ' => 230,
            'τ' => 231,
            'Φ' => 232,
            'Θ' => 233,
            'Ω' => 234,
            'δ' => 235,
            '∞' => 236,
            'φ' => 237,
            'ε' => 238,
            '∩' => 239,
            '≡' => 240,
            '±' => 241,
            '≥' => 242,
            '≤' => 243,
            '⌠' => 244,
            '⌡' => 245,
            '÷' => 246,
            '≈' => 247,
            '°' => 248,
            '∙' => 249,
            '·' => 250,
            '√' => 251,
            'ⁿ' => 252,
            '²' => 253,
            '■' => 254,
            '\u{a0}' => 255,
            _ => 0,
        }
    }
}

/// Encodes each character of `text` in code page 437.
pub fn string_to_cp437(text: &str) -> (r: Vec<u16>)
    ensures
        r@ == text@.map_values(|c: char| cp437(c)),
{
    let n = text.unicode_len();
    let mut r: Vec<u16> = Vec::new();
    let mut i: usize = 0;
    while i < n
        invariant
            n == text@.len(),
            i <= n,
            r@ == text@.subrange(0, i as int).map_values(|c: char| cp437(c)),
        decreases n - i,
    {
        let c = text.get_char(i);
        r.push(to_cp437(c));
        i = i + 1;
        assert(r@ =~= text@.subrange(0, i as int).map_values(|c: char| cp437(c)));
    }
    assert(text@.subrange(0, n as int) =~= text@);
    r
}

} // verus!
