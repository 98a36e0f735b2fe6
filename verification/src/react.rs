//! Spelling a text in reactions: for each character the emoji that can
//! stand for it, the first choice first.

use crate::text::same_text;
use vstd::prelude::*;

verus! {

/// How many characters have emoji.
pub const KEY_COUNT: usize = 54;

/// The emoji that can stand for a character, the first choice first;
/// empty for a character that has none.
pub open spec fn options_for(ch: char) -> Seq<Seq<char>> {
    if ch == 'a' {
        seq!["🇦"@, "🅰️"@, "🔺"@, "🅰"@, "4️⃣"@]
    } else if ch == 'b' {
        seq!["🇧"@, "🅱️"@, "🅱"@, "6️⃣"@, "🪨"@]
    } else if ch == 'c' {
        seq!["🇨"@, "©️"@, "🌙"@, "☪️"@, "🥐"@]
    } else if ch == 'd' {
        seq!["🇩"@, "↩️"@, "🌛"@, "🌜"@, "🎯"@]
    } else if ch == 'e' {
        seq!["🇪"@, "3️⃣"@, "💶"@, "📧"@, "🔱"@]
    } else if ch == 'f' {
        seq!["🇫"@, "🎏"@, "🪦"@, "📠"@, "🔥"@]
    } else if ch == 'g' {
        seq!["🇬"@, "🔄"@, "🌀"@, "🎯"@, "⚙️"@]
    } else if ch == 'h' {
        seq!["🇭"@, "🏨"@, "🏥"@, "🏡"@, "♓"@]
    } else if ch == 'i' {
        seq!["🇮"@, "ℹ️"@, "1️⃣"@, "🍦"@, "🧊"@]
    } else if ch == 'j' {
        seq!["🇯"@, "🎷"@, "🗾"@, "🪝"@, "🕺"@]
    } else if ch == 'k' {
        seq!["🇰"@, "🎋"@, "🦘"@, "🥝"@, "🔑"@]
    } else if ch == 'l' {
        seq!["🇱"@, "🇮"@, "1️⃣"@, "🏩"@, "📱"@]
    } else if ch == 'm' {
        seq!["🇲"@, "Ⓜ️"@, "〽️"@, "🎵"@, "🗻"@]
    } else if ch == 'n' {
        seq!["🇳"@, "📈"@, "🎵"@, "🌃"@, "♑"@]
    } else if ch == 'o' {
        seq!["🇴"@, "⭕"@, "🅾️"@, "🅾"@, "0️⃣"@, "🔴"@, "🟡"@, "🟢"@, "🔵"@, "🟣"@]
    } else if ch == 'p' {
        seq!["🇵"@, "🅿️"@, "🅿"@, "🪩"@, "📌"@]
    } else if ch == 'q' {
        seq!["🇶"@, "🎯"@, "🔍"@, "❓"@, "🪙"@]
    } else if ch == 'r' {
        seq!["🇷"@, "®️"@, "🚀"@, "🌈"@, "♻️"@]
    } else if ch == 's' {
        seq!["🇸"@, "💲"@, "5️⃣"@, "🐍"@, "⚡"@]
    } else if ch == 't' {
        seq!["🇹"@, "✝️"@, "🌴"@, "🍵"@, "📐"@]
    } else if ch == 'u' {
        seq!["🇺"@, "⛎"@, "🔄"@, "🌙"@, "⚓"@]
    } else if ch == 'v' {
        seq!["🇻"@, "✅"@, "♈"@, "🎭"@, "🔽"@]
    } else if ch == 'w' {
        seq!["🇼"@, "〰️"@, "🤷"@, "🌊"@, "💧"@]
    } else if ch == 'x' {
        seq!["🇽"@, "❌"@, "✖️"@, "❎"@, "🔀"@]
    } else if ch == 'y' {
        seq!["🇾"@, "💴"@, "🧘"@, "☯️"@, "🌟"@]
    } else if ch == 'z' {
        seq!["🇿"@, "💤"@, "⚡"@, "🦓"@, "0️⃣"@]
    } else if ch == '0' {
        seq!["0️⃣"@, "⭕"@, "🅾️"@, "🔴"@]
    } else if ch == '1' {
        seq!["1️⃣"@, "🇮"@, "ℹ️"@, "🥇"@]
    } else if ch == '2' {
        seq!["2️⃣"@, "🦢"@, "🥈"@, "🪝"@]
    } else if ch == '3' {
        seq!["3️⃣"@, "🇪"@, "🥉"@, "🔱"@]
    } else if ch == '4' {
        seq!["4️⃣"@, "🇦"@, "🍀"@, "🔲"@]
    } else if ch == '5' {
        seq!["5️⃣"@, "🇸"@, "🖐️"@, "⭐"@]
    } else if ch == '6' {
        seq!["6️⃣"@, "🇧"@, "🎯"@, "🔯"@]
    } else if ch == '7' {
        seq!["7️⃣"@, "🎰"@, "🔧"@, "📐"@]
    } else if ch == '8' {
        seq!["8️⃣"@, "♾️"@, "🎱"@, "⚡"@]
    } else if ch == '9' {
        seq!["9️⃣"@, "🌀"@, "🎯"@, "🔄"@]
    } else if ch == ' ' {
        seq!["⬜"@, "▫️"@, "⚪"@]
    } else if ch == '!' {
        seq!["❗"@, "❕"@, "‼️"@, "⚠️"@]
    } else if ch == '?' {
        seq!["❓"@, "❔"@, "🤔"@, "🔍"@]
    } else if ch == '.' {
        seq!["🔸"@, "🔹"@, "⚫"@, "⚪"@]
    } else if ch == ',' {
        seq!["〰️"@, "💧"@, "🌊"@, "🔸"@]
    } else if ch == ';' {
        seq!["😉"@, "😏"@, "🔸"@, "💧"@]
    } else if ch == ':' {
        seq!["😮"@, "😯"@, "⚫"@, "🔸"@]
    } else if ch == '(' {
        seq!["◀️"@, "🌙"@, "🌛"@, "⚫"@]
    } else if ch == ')' {
        seq!["▶️"@, "🌛"@, "🌜"@, "⚫"@]
    } else if ch == '-' {
        seq!["➖"@, "〰️"@, "💨"@, "⚫"@]
    } else if ch == '+' {
        seq!["➕"@, "✅"@, "🔄"@, "⚡"@]
    } else if ch == '=' {
        seq!["🟰"@, "➖"@, "〰️"@, "⚫"@]
    } else if ch == '*' {
        seq!["⭐"@, "✨"@, "🌟"@, "💫"@]
    } else if ch == '/' {
        seq!["〰️"@, "💨"@, "⚡"@, "🔸"@]
    } else if ch == '\\' {
        seq!["〰️"@, "💨"@, "⚡"@, "🔹"@]
    } else if ch == '&' {
        seq!["🤝"@, "⚡"@, "🔗"@, "💫"@]
    } else if ch == '#' {
        seq!["#️⃣"@, "🔲"@, "⚫"@, "🔸"@]
    } else if ch == '@' {
        seq!["🇦"@, "🅰️"@, "⚫"@, "🔘"@]
    } else {
        Seq::empty()
    }
}

/// The characters that have emoji, in the order of the table.
pub open spec fn keys() -> Seq<char> {
    seq![
        'a',
        'b',
        'c',
        'd',
        'e',
        'f',
        'g',
        'h',
        'i',
        'j',
        'k',
        'l',
        'm',
        'n',
        'o',
        'p',
        'q',
        'r',
        's',
        't',
        'u',
        'v',
        'w',
        'x',
        'y',
        'z',
        '0',
        '1',
        '2',
        '3',
        '4',
        '5',
        '6',
        '7',
        '8',
        '9',
        ' ',
        '!',
        '?',
        '.',
        ',',
        ';',
        ':',
        '(',
        ')',
        '-',
        '+',
        '=',
        '*',
        '/',
        '\\',
        '&',
        '#',
        '@',
    ]
}

/// The texts as contracts see them.
pub open spec fn texts(options: Seq<&'static str>) -> Seq<Seq<char>> {
    Seq::new(options.len(), |i: int| options[i]@)
}

/// The emoji for `ch`.
pub fn emoji_options(ch: char) -> (options: Vec<&'static str>)
    ensures
        texts(options@) == options_for(ch),
{
    if ch == 'a' {
        let options = vec!["🇦", "🅰️", "🔺", "🅰", "4️⃣"];
        assert(texts(options@) =~= options_for(ch));
        options
    } else if ch == 'b' {
        let options = vec!["🇧", "🅱️", "🅱", "6️⃣", "🪨"];
        assert(texts(options@) =~= options_for(ch));
        options
    } else if ch == 'c' {
        let options = vec!["🇨", "©️", "🌙", "☪️", "🥐"];
        assert(texts(options@) =~= options_for(ch));
        options
    } else if ch == 'd' {
        let options = vec!["🇩", "↩️", "🌛", "🌜", "🎯"];
        assert(texts(options@) =~= options_for(ch));
        options
    } else if ch == 'e' {
        let options = vec!["🇪", "3️⃣", "💶", "📧", "🔱"];
        assert(texts(options@) =~= options_for(ch));
        options
    } else if ch == 'f' {
        let options = vec!["🇫", "🎏", "🪦", "📠", "🔥"];
        assert(texts(options@) =~= options_for(ch));
        options
    } else if ch == 'g' {
        let options = vec!["🇬", "🔄", "🌀", "🎯", "⚙️"];
        assert(texts(options@) =~= options_for(ch));
        options
    } else if ch == 'h' {
        let options = vec!["🇭", "🏨", "🏥", "🏡", "♓"];
        assert(texts(options@) =~= options_for(ch));
        options
    } else if ch == 'i' {
        let options = vec!["🇮", "ℹ️", "1️⃣", "🍦", "🧊"];
        assert(texts(options@) =~= options_for(ch));
        options
    } else if ch == 'j' {
        let options = vec!["🇯", "🎷", "🗾", "🪝", "🕺"];
        assert(texts(options@) =~= options_for(ch));
        options
    } else if ch == 'k' {
        let options = vec!["🇰", "🎋", "🦘", "🥝", "🔑"];
        assert(texts(options@) =~= options_for(ch));
        options
    } else if ch == 'l' {
        let options = vec!["🇱", "🇮", "1️⃣", "🏩", "📱"];
        assert(texts(options@) =~= options_for(ch));
        options
    } else if ch == 'm' {
        let options = vec!["🇲", "Ⓜ️", "〽️", "🎵", "🗻"];
        assert(texts(options@) =~= options_for(ch));
        options
    } else if ch == 'n' {
        let options = vec!["🇳", "📈", "🎵", "🌃", "♑"];
        assert(texts(options@) =~= options_for(ch));
        options
    } else if ch == 'o' {
        let options = vec!["🇴", "⭕", "🅾️", "🅾", "0️⃣", "🔴", "🟡", "🟢", "🔵", "🟣"];
        assert(texts(options@) =~= options_for(ch));
        options
    } else if ch == 'p' {
        let options = vec!["🇵", "🅿️", "🅿", "🪩", "📌"];
        assert(texts(options@) =~= options_for(ch));
        options
    } else if ch == 'q' {
        let options = vec!["🇶", "🎯", "🔍", "❓", "🪙"];
        assert(texts(options@) =~= options_for(ch));
        options
    } else if ch == 'r' {
        let options = vec!["🇷", "®️", "🚀", "🌈", "♻️"];
        assert(texts(options@) =~= options_for(ch));
        options
    } else if ch == 's' {
        let options = vec!["🇸", "💲", "5️⃣", "🐍", "⚡"];
        assert(texts(options@) =~= options_for(ch));
        options
    } else if ch == 't' {
        let options = vec!["🇹", "✝️", "🌴", "🍵", "📐"];
        assert(texts(options@) =~= options_for(ch));
        options
    } else if ch == 'u' {
        let options = vec!["🇺", "⛎", "🔄", "🌙", "⚓"];
        assert(texts(options@) =~= options_for(ch));
        options
    } else if ch == 'v' {
        let options = vec!["🇻", "✅", "♈", "🎭", "🔽"];
        assert(texts(options@) =~= options_for(ch));
        options
    } else if ch == 'w' {
        let options = vec!["🇼", "〰️", "🤷", "🌊", "💧"];
        assert(texts(options@) =~= options_for(ch));
        options
    } else if ch == 'x' {
        let options = vec!["🇽", "❌", "✖️", "❎", "🔀"];
        assert(texts(options@) =~= options_for(ch));
        options
    } else if ch == 'y' {
        let options = vec!["🇾", "💴", "🧘", "☯️", "🌟"];
        assert(texts(options@) =~= options_for(ch));
        options
    } else if ch == 'z' {
        let options = vec!["🇿", "💤", "⚡", "🦓", "0️⃣"];
        assert(texts(options@) =~= options_for(ch));
        options
    } else if ch == '0' {
        let options = vec!["0️⃣", "⭕", "🅾️", "🔴"];
        assert(texts(options@) =~= options_for(ch));
        options
    } else if ch == '1' {
        let options = vec!["1️⃣", "🇮", "ℹ️", "🥇"];
        assert(texts(options@) =~= options_for(ch));
        options
    } else if ch == '2' {
        let options = vec!["2️⃣", "🦢", "🥈", "🪝"];
        assert(texts(options@) =~= options_for(ch));
        options
    } else if ch == '3' {
        let options = vec!["3️⃣", "🇪", "🥉", "🔱"];
        assert(texts(options@) =~= options_for(ch));
        options
    } else if ch == '4' {
        let options = vec!["4️⃣", "🇦", "🍀", "🔲"];
        assert(texts(options@) =~= options_for(ch));
        options
    } else if ch == '5' {
        let options = vec!["5️⃣", "🇸", "🖐️", "⭐"];
        assert(texts(options@) =~= options_for(ch));
        options
    } else if ch == '6' {
        let options = vec!["6️⃣", "🇧", "🎯", "🔯"];
        assert(texts(options@) =~= options_for(ch));
        options
    } else if ch == '7' {
        let options = vec!["7️⃣", "🎰", "🔧", "📐"];
        assert(texts(options@) =~= options_for(ch));
        options
    } else if ch == '8' {
        let options = vec!["8️⃣", "♾️", "🎱", "⚡"];
        assert(texts(options@) =~= options_for(ch));
        options
    } else if ch == '9' {
        let options = vec!["9️⃣", "🌀", "🎯", "🔄"];
        assert(texts(options@) =~= options_for(ch));
        options
    } else if ch == ' ' {
        let options = vec!["⬜", "▫️", "⚪"];
        assert(texts(options@) =~= options_for(ch));
        options
    } else if ch == '!' {
        let options = vec!["❗", "❕", "‼️", "⚠️"];
        assert(texts(options@) =~= options_for(ch));
        options
    } else if ch == '?' {
        let options = vec!["❓", "❔", "🤔", "🔍"];
        assert(texts(options@) =~= options_for(ch));
        options
    } else if ch == '.' {
        let options = vec!["🔸", "🔹", "⚫", "⚪"];
        assert(texts(options@) =~= options_for(ch));
        options
    } else if ch == ',' {
        let options = vec!["〰️", "💧", "🌊", "🔸"];
        assert(texts(options@) =~= options_for(ch));
        options
    } else if ch == ';' {
        let options = vec!["😉", "😏", "🔸", "💧"];
        assert(texts(options@) =~= options_for(ch));
        options
    } else if ch == ':' {
        let options = vec!["😮", "😯", "⚫", "🔸"];
        assert(texts(options@) =~= options_for(ch));
        options
    } else if ch == '(' {
        let options = vec!["◀️", "🌙", "🌛", "⚫"];
        assert(texts(options@) =~= options_for(ch));
        options
    } else if ch == ')' {
        let options = vec!["▶️", "🌛", "🌜", "⚫"];
        assert(texts(options@) =~= options_for(ch));
        options
    } else if ch == '-' {
        let options = vec!["➖", "〰️", "💨", "⚫"];
        assert(texts(options@) =~= options_for(ch));
        options
    } else if ch == '+' {
        let options = vec!["➕", "✅", "🔄", "⚡"];
        assert(texts(options@) =~= options_for(ch));
        options
    } else if ch == '=' {
        let options = vec!["🟰", "➖", "〰️", "⚫"];
        assert(texts(options@) =~= options_for(ch));
        options
    } else if ch == '*' {
        let options = vec!["⭐", "✨", "🌟", "💫"];
        assert(texts(options@) =~= options_for(ch));
        options
    } else if ch == '/' {
        let options = vec!["〰️", "💨", "⚡", "🔸"];
        assert(texts(options@) =~= options_for(ch));
        options
    } else if ch == '\\' {
        let options = vec!["〰️", "💨", "⚡", "🔹"];
        assert(texts(options@) =~= options_for(ch));
        options
    } else if ch == '&' {
        let options = vec!["🤝", "⚡", "🔗", "💫"];
        assert(texts(options@) =~= options_for(ch));
        options
    } else if ch == '#' {
        let options = vec!["#️⃣", "🔲", "⚫", "🔸"];
        assert(texts(options@) =~= options_for(ch));
        options
    } else if ch == '@' {
        let options = vec!["🇦", "🅰️", "⚫", "🔘"];
        assert(texts(options@) =~= options_for(ch));
        options
    } else {
        let options: Vec<&'static str> = Vec::new();
        assert(texts(options@) =~= options_for(ch));
        options
    }
}

/// Character `index` of the table.
fn key_at(index: usize) -> (ch: char)
    requires
        index < KEY_COUNT,
    ensures
        ch == keys()[index as int],
{
    let table: [char; 54] = [
        'a',
        'b',
        'c',
        'd',
        'e',
        'f',
        'g',
        'h',
        'i',
        'j',
        'k',
        'l',
        'm',
        'n',
        'o',
        'p',
        'q',
        'r',
        's',
        't',
        'u',
        'v',
        'w',
        'x',
        'y',
        'z',
        '0',
        '1',
        '2',
        '3',
        '4',
        '5',
        '6',
        '7',
        '8',
        '9',
        ' ',
        '!',
        '?',
        '.',
        ',',
        ';',
        ':',
        '(',
        ')',
        '-',
        '+',
        '=',
        '*',
        '/',
        '\\',
        '&',
        '#',
        '@',
    ];
    table[index]
}

/// A character has emoji exactly if it is among the keys of the table.
pub proof fn lemma_keys_cover(ch: char)
    ensures
        options_for(ch).len() > 0 <==> exists|j: int| 0 <= j < KEY_COUNT && keys()[j] == ch,
        keys().len() == KEY_COUNT,
{
    if ch == 'a' {
        assert(keys()[0] == ch);
    } else if ch == 'b' {
        assert(keys()[1] == ch);
    } else if ch == 'c' {
        assert(keys()[2] == ch);
    } else if ch == 'd' {
        assert(keys()[3] == ch);
    } else if ch == 'e' {
        assert(keys()[4] == ch);
    } else if ch == 'f' {
        assert(keys()[5] == ch);
    } else if ch == 'g' {
        assert(keys()[6] == ch);
    } else if ch == 'h' {
        assert(keys()[7] == ch);
    } else if ch == 'i' {
        assert(keys()[8] == ch);
    } else if ch == 'j' {
        assert(keys()[9] == ch);
    } else if ch == 'k' {
        assert(keys()[10] == ch);
    } else if ch == 'l' {
        assert(keys()[11] == ch);
    } else if ch == 'm' {
        assert(keys()[12] == ch);
    } else if ch == 'n' {
        assert(keys()[13] == ch);
    } else if ch == 'o' {
        assert(keys()[14] == ch);
    } else if ch == 'p' {
        assert(keys()[15] == ch);
    } else if ch == 'q' {
        assert(keys()[16] == ch);
    } else if ch == 'r' {
        assert(keys()[17] == ch);
    } else if ch == 's' {
        assert(keys()[18] == ch);
    } else if ch == 't' {
        assert(keys()[19] == ch);
    } else if ch == 'u' {
        assert(keys()[20] == ch);
    } else if ch == 'v' {
        assert(keys()[21] == ch);
    } else if ch == 'w' {
        assert(keys()[22] == ch);
    } else if ch == 'x' {
        assert(keys()[23] == ch);
    } else if ch == 'y' {
        assert(keys()[24] == ch);
    } else if ch == 'z' {
        assert(keys()[25] == ch);
    } else if ch == '0' {
        assert(keys()[26] == ch);
    } else if ch == '1' {
        assert(keys()[27] == ch);
    } else if ch == '2' {
        assert(keys()[28] == ch);
    } else if ch == '3' {
        assert(keys()[29] == ch);
    } else if ch == '4' {
        assert(keys()[30] == ch);
    } else if ch == '5' {
        assert(keys()[31] == ch);
    } else if ch == '6' {
        assert(keys()[32] == ch);
    } else if ch == '7' {
        assert(keys()[33] == ch);
    } else if ch == '8' {
        assert(keys()[34] == ch);
    } else if ch == '9' {
        assert(keys()[35] == ch);
    } else if ch == ' ' {
        assert(keys()[36] == ch);
    } else if ch == '!' {
        assert(keys()[37] == ch);
    } else if ch == '?' {
        assert(keys()[38] == ch);
    } else if ch == '.' {
        assert(keys()[39] == ch);
    } else if ch == ',' {
        assert(keys()[40] == ch);
    } else if ch == ';' {
        assert(keys()[41] == ch);
    } else if ch == ':' {
        assert(keys()[42] == ch);
    } else if ch == '(' {
        assert(keys()[43] == ch);
    } else if ch == ')' {
        assert(keys()[44] == ch);
    } else if ch == '-' {
        assert(keys()[45] == ch);
    } else if ch == '+' {
        assert(keys()[46] == ch);
    } else if ch == '=' {
        assert(keys()[47] == ch);
    } else if ch == '*' {
        assert(keys()[48] == ch);
    } else if ch == '/' {
        assert(keys()[49] == ch);
    } else if ch == '\\' {
        assert(keys()[50] == ch);
    } else if ch == '&' {
        assert(keys()[51] == ch);
    } else if ch == '#' {
        assert(keys()[52] == ch);
    } else if ch == '@' {
        assert(keys()[53] == ch);
    }
}

/// The table of emoji by character.
pub struct EmojiMapping {
    rows: Vec<(char, Vec<&'static str>)>,
}

/// The whole table: each key with its emoji, in the order of the keys.
pub open spec fn table() -> Seq<(char, Seq<Seq<char>>)> {
    Seq::new(KEY_COUNT as nat, |i: int| (keys()[i], options_for(keys()[i])))
}

impl View for EmojiMapping {
    type V = Seq<(char, Seq<Seq<char>>)>;

    closed spec fn view(&self) -> Seq<(char, Seq<Seq<char>>)> {
        Seq::new(self.rows@.len(), |i: int| (self.rows@[i].0, texts(self.rows@[i].1@)))
    }
}

impl EmojiMapping {
    /// The rows are those of the table.
    pub open spec fn wf(&self) -> bool {
        self@ == table()
    }

    proof fn lemma_rows(&self)
        requires
            self.wf(),
        ensures
            self.rows@.len() == KEY_COUNT,
            forall|i: int|
                0 <= i < self.rows@.len() ==> (#[trigger] self.rows@[i]).0 == keys()[i] && texts(
                    self.rows@[i].1@,
                ) == options_for(keys()[i]),
    {
        assert(self@.len() == table().len());
        assert forall|i: int| 0 <= i < self.rows@.len() implies (#[trigger] self.rows@[i]).0
            == keys()[i] && texts(self.rows@[i].1@) == options_for(keys()[i]) by {
            assert(self@[i] == table()[i]);
        }
    }

    /// The place of `ch` in the table.
    fn position(&self, ch: char) -> (r: Option<usize>)
        requires
            self.wf(),
        ensures
            r matches Some(i) ==> i < self.rows@.len() && self.rows@[i as int].0 == ch && texts(
                self.rows@[i as int].1@,
            ) == options_for(ch) && options_for(ch).len() > 0,
            r is None ==> options_for(ch).len() == 0,
    {
        proof {
            self.lemma_rows();
        }
        let mut i: usize = 0;
        while i < self.rows.len()
            invariant
                i <= self.rows@.len(),
                self.rows@.len() == KEY_COUNT,
                forall|k: int|
                    0 <= k < self.rows@.len() ==> (#[trigger] self.rows@[k]).0 == keys()[k]
                        && texts(self.rows@[k].1@) == options_for(keys()[k]),
                forall|j: int| 0 <= j < i ==> keys()[j] != ch,
            decreases self.rows@.len() - i,
        {
            if self.rows[i].0 == ch {
                assert(self.rows@[i as int].0 == keys()[i as int]);
                proof {
                    lemma_keys_cover(ch);
                }
                return Some(i);
            }
            assert(self.rows@[i as int].0 == keys()[i as int]);
            i += 1;
        }
        proof {
            lemma_keys_cover(ch);
        }
        None
    }

    /// Whether `ch` has emoji.
    pub fn contains_key(&self, ch: &char) -> (b: bool)
        requires
            self.wf(),
        ensures
            b == (options_for(*ch).len() > 0),
    {
        self.position(*ch).is_some()
    }

    /// The emoji for `ch`, the first choice first.
    pub fn get(&self, ch: &char) -> (r: Option<&Vec<&'static str>>)
        requires
            self.wf(),
        ensures
            r is Some == (options_for(*ch).len() > 0),
            r matches Some(options) ==> texts(options@) == options_for(*ch),
    {
        match self.position(*ch) {
            Some(i) => Some(&self.rows[i].1),
            None => None,
        }
    }

    /// How many characters have emoji.
    pub fn len(&self) -> (n: usize)
        requires
            self.wf(),
        ensures
            n == KEY_COUNT,
    {
        proof {
            self.lemma_rows();
        }
        self.rows.len()
    }
}

/// The table of emoji: for letters the regional indicator first, then
/// emoji that look alike; likewise for digits and some punctuation.
pub fn create_emoji_mapping() -> (m: EmojiMapping)
    ensures
        m.wf(),
{
    let mut rows: Vec<(char, Vec<&'static str>)> = Vec::new();
    let mut i: usize = 0;
    while i < KEY_COUNT
        invariant
            i <= KEY_COUNT,
            rows@.len() == i,
            forall|j: int|
                0 <= j < i ==> (#[trigger] rows@[j]).0 == keys()[j] && texts(rows@[j].1@)
                    == options_for(keys()[j]),
        decreases KEY_COUNT - i,
    {
        let ch = key_at(i);
        rows.push((ch, emoji_options(ch)));
        i += 1;
    }
    let m = EmojiMapping { rows };
    assert(m@ =~= table());
    m
}

/// Whether `emoji` is among `used`.
fn is_used(used: &Vec<&'static str>, emoji: &str) -> (b: bool)
    ensures
        b == texts(used@).contains(emoji@),
{
    let mut i: usize = 0;
    while i < used.len()
        invariant
            i <= used.len(),
            forall|j: int| 0 <= j < i ==> texts(used@)[j] != emoji@,
        decreases used.len() - i,
    {
        if same_text(used[i], emoji) {
            assert(texts(used@)[i as int] == emoji@);
            return true;
        }
        i += 1;
    }
    false
}

/// The first of `options`, from `from` on, that is not among `used`.
pub open spec fn first_unused(options: Seq<Seq<char>>, used: Seq<Seq<char>>, from: int) -> Option<int>
    decreases options.len() - from,
{
    if from < 0 || from >= options.len() {
        None
    } else if !used.contains(options[from]) {
        Some(from)
    } else {
        first_unused(options, used, from + 1)
    }
}

/// The emoji to react with for `ch`: the first of its emoji that is not
/// among `used`. There is none where `ch` has no emoji or all are used.
pub fn pick_emoji(mapping: &EmojiMapping, used: &Vec<&'static str>, ch: char) -> (r: Option<
    &'static str,
>)
    requires
        mapping.wf(),
    ensures
        match first_unused(options_for(ch), texts(used@), 0) {
            Some(i) => r matches Some(emoji) && emoji@ == options_for(ch)[i],
            None => r is None,
        },
{
    let options = match mapping.get(&ch) {
        Some(options) => options,
        None => {
            return None;
        },
    };
    let mut i: usize = options.len();
    let mut found: Option<&'static str> = None;
    while i > 0
        invariant
            i <= options.len(),
            texts(options@) == options_for(ch),
            match first_unused(options_for(ch), texts(used@), i as int) {
                Some(k) => found matches Some(emoji) && emoji@ == options_for(ch)[k],
                None => found is None,
            },
        decreases i,
    {
        i -= 1;
        assert(texts(options@)[i as int] == options@[i as int]@);
        if !is_used(used, options[i]) {
            found = Some(options[i]);
        }
    }
    found
}

} // verus!
