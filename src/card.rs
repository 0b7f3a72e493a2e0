//! Cards: a (type, color) pair, the compatibility rule, the compact two-letter
//! form used on the wire, presentation strings, and the canonical deck.
use rand::rngs::StdRng;
use vstd::prelude::*;
use vstd::multiset::Multiset;
use vstd::seq_lib::group_to_multiset_ensures;

use crate::chance::roll;

verus! {

/// The four colors. A wild card keeps a color slot that holds the chosen
/// color once one is picked, and `Red` as a placeholder before that.
#[derive(Clone, Copy, PartialEq, Eq, Debug, Hash, Structural)]
pub enum Color {
    Red,
    Green,
    Yellow,
    Blue,
}

impl Color {
    /// The letter of the color in the compact form.
    pub open spec fn letter(self) -> char {
        match self {
            Color::Red => 'R',
            Color::Green => 'G',
            Color::Yellow => 'Y',
            Color::Blue => 'B',
        }
    }

    pub open spec fn from_letter(c: char) -> Option<Color> {
        if c == 'R' {
            Some(Color::Red)
        } else if c == 'G' {
            Some(Color::Green)
        } else if c == 'Y' {
            Some(Color::Yellow)
        } else if c == 'B' {
            Some(Color::Blue)
        } else {
            None
        }
    }

    /// Position of the color in the order Red, Green, Yellow, Blue.
    pub open spec fn index(self) -> int {
        match self {
            Color::Red => 0,
            Color::Green => 1,
            Color::Yellow => 2,
            Color::Blue => 3,
        }
    }

    /// The color at position `i` of that order.
    pub open spec fn nth(i: int) -> Color {
        if i == 0 {
            Color::Red
        } else if i == 1 {
            Color::Green
        } else if i == 2 {
            Color::Yellow
        } else {
            Color::Blue
        }
    }

    /// The name of the color, as presentation strings show it.
    pub open spec fn name(self) -> Seq<char> {
        match self {
            Color::Red => seq!['R', 'e', 'd'],
            Color::Green => seq!['G', 'r', 'e', 'e', 'n'],
            Color::Yellow => seq!['Y', 'e', 'l', 'l', 'o', 'w'],
            Color::Blue => seq!['B', 'l', 'u', 'e'],
        }
    }

    pub fn to_char(self) -> (r: char)
        ensures
            r == self.letter(),
    {
        match self {
            Color::Red => 'R',
            Color::Green => 'G',
            Color::Yellow => 'Y',
            Color::Blue => 'B',
        }
    }

    pub fn from_char(c: char) -> (r: Option<Color>)
        ensures
            r == Color::from_letter(c),
    {
        match c {
            'R' => Some(Color::Red),
            'G' => Some(Color::Green),
            'Y' => Some(Color::Yellow),
            'B' => Some(Color::Blue),
            _ => None,
        }
    }

    pub fn from_index(i: u32) -> (r: Color)
        requires
            i < 4,
        ensures
            r == Color::nth(i as int),
            r.index() == i,
    {
        if i == 0 {
            Color::Red
        } else if i == 1 {
            Color::Green
        } else if i == 2 {
            Color::Yellow
        } else {
            Color::Blue
        }
    }

    pub(crate) fn name_str(&self) -> (r: &'static str)
        ensures
            r@ == self.name(),
    {
        proof {
            reveal_strlit("Red");
            reveal_strlit("Green");
            reveal_strlit("Yellow");
            reveal_strlit("Blue");
        }
        match self {
            Color::Red => "Red",
            Color::Green => "Green",
            Color::Yellow => "Yellow",
            Color::Blue => "Blue",
        }
    }

    /// The letter as a one-character string.
    pub(crate) fn letter_str(&self) -> (r: &'static str)
        ensures
            r@ == seq![self.letter()],
    {
        proof {
            reveal_strlit("R");
            reveal_strlit("G");
            reveal_strlit("Y");
            reveal_strlit("B");
        }
        match self {
            Color::Red => "R",
            Color::Green => "G",
            Color::Yellow => "Y",
            Color::Blue => "B",
        }
    }

    /// A color drawn uniformly from the four.
    pub fn random(rng: &mut StdRng) -> (r: Color) {
        let i = roll(rng, 4);
        Color::from_index(i)
    }
}

/// The fifteen card types: the numbers, the three colored action cards and the
/// two wilds.
#[derive(Clone, Copy, PartialEq, Eq, Debug, Hash, Structural)]
pub enum CardType {
    N0,
    N1,
    N2,
    N3,
    N4,
    N5,
    N6,
    N7,
    N8,
    N9,
    PlusTwo,
    Skip,
    Reverse,
    Wild,
    PlusFour,
}

impl CardType {
    /// Position of the type in declaration order: a number card's digit, then
    /// 10 to 14 for PlusTwo, Skip, Reverse, Wild and PlusFour.
    pub open spec fn index(self) -> int {
        match self {
            CardType::N0 => 0,
            CardType::N1 => 1,
            CardType::N2 => 2,
            CardType::N3 => 3,
            CardType::N4 => 4,
            CardType::N5 => 5,
            CardType::N6 => 6,
            CardType::N7 => 7,
            CardType::N8 => 8,
            CardType::N9 => 9,
            CardType::PlusTwo => 10,
            CardType::Skip => 11,
            CardType::Reverse => 12,
            CardType::Wild => 13,
            CardType::PlusFour => 14,
        }
    }

    /// The type at position `i` of declaration order.
    pub open spec fn nth(i: int) -> CardType {
        if i == 0 {
            CardType::N0
        } else if i == 1 {
            CardType::N1
        } else if i == 2 {
            CardType::N2
        } else if i == 3 {
            CardType::N3
        } else if i == 4 {
            CardType::N4
        } else if i == 5 {
            CardType::N5
        } else if i == 6 {
            CardType::N6
        } else if i == 7 {
            CardType::N7
        } else if i == 8 {
            CardType::N8
        } else if i == 9 {
            CardType::N9
        } else if i == 10 {
            CardType::PlusTwo
        } else if i == 11 {
            CardType::Skip
        } else if i == 12 {
            CardType::Reverse
        } else if i == 13 {
            CardType::Wild
        } else {
            CardType::PlusFour
        }
    }

    /// The symbol of the type in the compact form.
    pub open spec fn symbol(self) -> char {
        match self {
            CardType::N0 => '0',
            CardType::N1 => '1',
            CardType::N2 => '2',
            CardType::N3 => '3',
            CardType::N4 => '4',
            CardType::N5 => '5',
            CardType::N6 => '6',
            CardType::N7 => '7',
            CardType::N8 => '8',
            CardType::N9 => '9',
            CardType::PlusTwo => '+',
            CardType::Skip => 'S',
            CardType::Reverse => 'R',
            CardType::Wild => '*',
            CardType::PlusFour => 'X',
        }
    }

    pub open spec fn from_symbol(c: char) -> Option<CardType> {
        if '0' <= c <= '9' {
            Some(CardType::nth(c as int - '0' as int))
        } else if c == '+' {
            Some(CardType::PlusTwo)
        } else if c == 'S' {
            Some(CardType::Skip)
        } else if c == 'R' {
            Some(CardType::Reverse)
        } else if c == '*' {
            Some(CardType::Wild)
        } else if c == 'X' {
            Some(CardType::PlusFour)
        } else {
            None
        }
    }

    pub open spec fn is_number(self) -> bool {
        self.index() <= 9
    }

    pub open spec fn wild(self) -> bool {
        self == CardType::Wild || self == CardType::PlusFour
    }

    /// May be played while a draw debt is active.
    pub open spec fn stackable(self) -> bool {
        self == CardType::PlusTwo || self == CardType::PlusFour || self == CardType::Reverse
            || self == CardType::Skip
    }

    /// The short label of the type: its digit, "+2", "+4", "*", "Skip" or
    /// "Reverse".
    pub open spec fn label(self) -> Seq<char> {
        if self.is_number() {
            seq![self.symbol()]
        } else {
            match self {
                CardType::PlusTwo => seq!['+', '2'],
                CardType::PlusFour => seq!['+', '4'],
                CardType::Wild => seq!['*'],
                CardType::Skip => seq!['S', 'k', 'i', 'p'],
                _ => seq!['R', 'e', 'v', 'e', 'r', 's', 'e'],
            }
        }
    }

    pub fn to_char(self) -> (r: char)
        ensures
            r == self.symbol(),
    {
        match self {
            CardType::N0 => '0',
            CardType::N1 => '1',
            CardType::N2 => '2',
            CardType::N3 => '3',
            CardType::N4 => '4',
            CardType::N5 => '5',
            CardType::N6 => '6',
            CardType::N7 => '7',
            CardType::N8 => '8',
            CardType::N9 => '9',
            CardType::PlusTwo => '+',
            CardType::Skip => 'S',
            CardType::Reverse => 'R',
            CardType::Wild => '*',
            CardType::PlusFour => 'X',
        }
    }

    pub fn from_char(c: char) -> (r: Option<CardType>)
        ensures
            r == CardType::from_symbol(c),
    {
        match c {
            '0' => Some(CardType::N0),
            '1' => Some(CardType::N1),
            '2' => Some(CardType::N2),
            '3' => Some(CardType::N3),
            '4' => Some(CardType::N4),
            '5' => Some(CardType::N5),
            '6' => Some(CardType::N6),
            '7' => Some(CardType::N7),
            '8' => Some(CardType::N8),
            '9' => Some(CardType::N9),
            '+' => Some(CardType::PlusTwo),
            'S' => Some(CardType::Skip),
            'R' => Some(CardType::Reverse),
            '*' => Some(CardType::Wild),
            'X' => Some(CardType::PlusFour),
            _ => None,
        }
    }

    pub fn from_index(i: u32) -> (r: CardType)
        requires
            i < 15,
        ensures
            r == CardType::nth(i as int),
            r.index() == i,
    {
        match i {
            0 => CardType::N0,
            1 => CardType::N1,
            2 => CardType::N2,
            3 => CardType::N3,
            4 => CardType::N4,
            5 => CardType::N5,
            6 => CardType::N6,
            7 => CardType::N7,
            8 => CardType::N8,
            9 => CardType::N9,
            10 => CardType::PlusTwo,
            11 => CardType::Skip,
            12 => CardType::Reverse,
            13 => CardType::Wild,
            _ => CardType::PlusFour,
        }
    }

    /// Same type as `last`, or wild.
    pub fn compatible_with(&self, last: CardType) -> (r: bool)
        ensures
            r == (self.wild() || *self == last),
    {
        self.is_wild() || *self == last
    }

    pub fn is_wild(&self) -> (r: bool)
        ensures
            r == self.wild(),
    {
        match self {
            CardType::Wild | CardType::PlusFour => true,
            _ => false,
        }
    }

    /// A type drawn uniformly from the fifteen.
    pub fn random(rng: &mut StdRng) -> (r: CardType) {
        let i = roll(rng, 15);
        CardType::from_index(i)
    }

    pub fn can_be_stacked(&self) -> (r: bool)
        ensures
            r == self.stackable(),
    {
        match self {
            CardType::PlusTwo | CardType::PlusFour | CardType::Reverse | CardType::Skip => true,
            _ => false,
        }
    }

    /// The symbol as a one-character string.
    pub(crate) fn symbol_str(&self) -> (r: &'static str)
        ensures
            r@ == seq![self.symbol()],
    {
        proof {
            reveal_strlit("0");
            reveal_strlit("1");
            reveal_strlit("2");
            reveal_strlit("3");
            reveal_strlit("4");
            reveal_strlit("5");
            reveal_strlit("6");
            reveal_strlit("7");
            reveal_strlit("8");
            reveal_strlit("9");
            reveal_strlit("+");
            reveal_strlit("S");
            reveal_strlit("R");
            reveal_strlit("*");
            reveal_strlit("X");
        }
        match self {
            CardType::N0 => "0",
            CardType::N1 => "1",
            CardType::N2 => "2",
            CardType::N3 => "3",
            CardType::N4 => "4",
            CardType::N5 => "5",
            CardType::N6 => "6",
            CardType::N7 => "7",
            CardType::N8 => "8",
            CardType::N9 => "9",
            CardType::PlusTwo => "+",
            CardType::Skip => "S",
            CardType::Reverse => "R",
            CardType::Wild => "*",
            CardType::PlusFour => "X",
        }
    }

    pub fn display(&self) -> (r: String)
        ensures
            r@ == self.label(),
    {
        let s = match self {
            CardType::N0 => "0",
            CardType::N1 => "1",
            CardType::N2 => "2",
            CardType::N3 => "3",
            CardType::N4 => "4",
            CardType::N5 => "5",
            CardType::N6 => "6",
            CardType::N7 => "7",
            CardType::N8 => "8",
            CardType::N9 => "9",
            CardType::PlusTwo => "+2",
            CardType::Skip => "Skip",
            CardType::Reverse => "Reverse",
            CardType::Wild => "*",
            CardType::PlusFour => "+4",
        };
        proof {
            reveal_strlit("0");
            reveal_strlit("1");
            reveal_strlit("2");
            reveal_strlit("3");
            reveal_strlit("4");
            reveal_strlit("5");
            reveal_strlit("6");
            reveal_strlit("7");
            reveal_strlit("8");
            reveal_strlit("9");
            reveal_strlit("+2");
            reveal_strlit("Skip");
            reveal_strlit("Reverse");
            reveal_strlit("*");
            reveal_strlit("+4");
        }
        let r = String::from_str(s);
        assert(r@ =~= self.label());
        r
    }
}

/// A card: its type and its color. Two cards are equal when both fields are.
#[derive(Clone, Copy, PartialEq, Eq, Debug, Structural)]
pub struct Card {
    pub ty: CardType,
    pub color: Color,
}

impl Card {
    /// Playable on `last`: wild, or the same type, or the same color.
    pub open spec fn compatible(self, last: Card) -> bool {
        self.ty.wild() || self.ty == last.ty || self.color == last.color
    }

    /// The compact form: the color's letter, then the type's symbol.
    pub open spec fn compact(self) -> Seq<char> {
        seq![self.color.letter(), self.ty.symbol()]
    }

    /// The card whose compact form is `s`, if `s` is one.
    pub open spec fn parse(s: Seq<char>) -> Option<Card> {
        if s.len() == 2 {
            match (Color::from_letter(s[0]), CardType::from_symbol(s[1])) {
                (Some(color), Some(ty)) => Some(Card { ty, color }),
                _ => None,
            }
        } else {
            None
        }
    }

    /// How the card is shown to a person: "Wildcard", "+4", or the color's
    /// name followed by "+2", "skip", "reverse" or the digit.
    pub open spec fn presentation(self) -> Seq<char> {
        match self.ty {
            CardType::Wild => seq!['W', 'i', 'l', 'd', 'c', 'a', 'r', 'd'],
            CardType::PlusFour => seq!['+', '4'],
            CardType::PlusTwo => self.color.name() + seq![' ', '+', '2'],
            CardType::Skip => self.color.name() + seq![' ', 's', 'k', 'i', 'p'],
            CardType::Reverse => self.color.name() + seq![' ', 'r', 'e', 'v', 'e', 'r', 's', 'e'],
            _ => self.color.name() + seq![' ', self.ty.symbol()],
        }
    }

    /// The presentation, followed for a wild card by its color in parentheses.
    pub open spec fn presentation_alt(self) -> Seq<char> {
        if self.ty.wild() {
            self.presentation() + seq![' ', '('] + self.color.name() + seq![')']
        } else {
            self.presentation()
        }
    }

    pub fn new(ty: CardType, color: Color) -> (r: Card)
        ensures
            r.ty == ty,
            r.color == color,
    {
        Card { ty, color }
    }

    /// A card of a uniformly drawn type and a uniformly drawn color.
    pub fn random(rng: &mut StdRng) -> (r: Card) {
        let ty = CardType::random(rng);
        let color = Color::random(rng);
        Card { ty, color }
    }

    pub fn compatible_with(&self, other: Card) -> (r: bool)
        ensures
            r == self.compatible(other),
    {
        self.ty.compatible_with(other.ty) || self.color == other.color
    }

    pub fn color(&self) -> (r: Color)
        ensures
            r == self.color,
    {
        self.color
    }

    pub fn is_wild(&self) -> (r: bool)
        ensures
            r == self.ty.wild(),
    {
        self.ty.is_wild()
    }

    pub fn ty(&self) -> (r: CardType)
        ensures
            r == self.ty,
    {
        self.ty
    }

    pub fn display_ty(&self) -> (r: String)
        ensures
            r@ == self.ty.label(),
    {
        self.ty.display()
    }

    /// The compact two-character form.
    pub fn to_compact(&self) -> (r: String)
        ensures
            r@ == self.compact(),
    {
        let r = String::from_str(self.color.letter_str()).concat(self.ty.symbol_str());
        assert(r@ =~= self.compact());
        r
    }

    /// Reads the compact form; anything that is not exactly a color letter
    /// followed by a type symbol is refused.
    pub fn from_str(s: &str) -> (r: Result<Card, ()>)
        ensures
            r is Ok <==> Card::parse(s@) is Some,
            r is Ok ==> Card::parse(s@) == Some(r->Ok_0),
    {
        if s.unicode_len() != 2 {
            return Err(());
        }
        let color = Color::from_char(s.get_char(0));
        let ty = CardType::from_char(s.get_char(1));
        match (color, ty) {
            (Some(color), Some(ty)) => Ok(Card { ty, color }),
            _ => Err(()),
        }
    }

    pub fn display(&self) -> (r: String)
        ensures
            r@ == self.presentation(),
    {
        proof {
            reveal_strlit("Wildcard");
            reveal_strlit("+4");
            reveal_strlit(" +2");
            reveal_strlit(" skip");
            reveal_strlit(" reverse");
            reveal_strlit(" ");
        }
        let r = match self.ty {
            CardType::Wild => String::from_str("Wildcard"),
            CardType::PlusFour => String::from_str("+4"),
            CardType::PlusTwo => String::from_str(self.color.name_str()).concat(" +2"),
            CardType::Skip => String::from_str(self.color.name_str()).concat(" skip"),
            CardType::Reverse => String::from_str(self.color.name_str()).concat(" reverse"),
            _ => String::from_str(self.color.name_str()).concat(" ").concat(
                self.ty.symbol_str(),
            ),
        };
        assert(r@ =~= self.presentation());
        r
    }

    /// The presentation with a wild card's chosen color appended.
    pub fn display_alt(&self) -> (r: String)
        ensures
            r@ == self.presentation_alt(),
    {
        let mut r = self.display();
        if self.is_wild() {
            proof {
                reveal_strlit(" (");
                reveal_strlit(")");
            }
            r.append(" (");
            r.append(self.color.name_str());
            r.append(")");
        }
        assert(r@ =~= self.presentation_alt());
        r
    }
}

impl Default for Card {
    fn default() -> (r: Card)
        ensures
            r == (Card { ty: CardType::N0, color: Color::Red }),
    {
        Card { ty: CardType::N0, color: Color::Red }
    }
}

/// Copies of each colored card of type `ty` in one color of the deck.
pub open spec fn copies_per_color(ty: CardType) -> nat {
    if ty == CardType::N0 {
        1
    } else {
        2
    }
}

/// How often `c` occurs in the canonical deck: one N0 and two of every other
/// colored type per color, and four Wild and four PlusFour, all four of each
/// carrying the placeholder color Red.
pub open spec fn deck_count(c: Card) -> nat {
    if c.ty.wild() {
        if c.color == Color::Red {
            4
        } else {
            0
        }
    } else {
        copies_per_color(c.ty)
    }
}

/// The 25 cards of one color, in deck order: N0, then two of each type from
/// N1 through Reverse.
pub open spec fn color_block(color: Color) -> Seq<Card> {
    Seq::new(
        25,
        |j: int|
            Card {
                ty: if j == 0 {
                    CardType::N0
                } else {
                    CardType::nth((j + 1) / 2)
                },
                color,
            },
    )
}

/// The blocks of the first `n` colors, in the order Red, Green, Yellow, Blue.
pub open spec fn color_blocks(n: nat) -> Seq<Card>
    decreases n,
{
    if n == 0 {
        Seq::empty()
    } else {
        color_blocks((n - 1) as nat) + color_block(Color::nth(n - 1))
    }
}

/// The eight wild cards closing the deck: Wild and PlusFour in turn, with the
/// placeholder color.
pub open spec fn wild_tail() -> Seq<Card> {
    Seq::new(
        8,
        |j: int|
            if j % 2 == 0 {
                Card { ty: CardType::Wild, color: Color::Red }
            } else {
                Card { ty: CardType::PlusFour, color: Color::Red }
            },
    )
}

/// The canonical deck in the order `build_deck` produces it.
pub open spec fn canonical_deck() -> Seq<Card> {
    color_blocks(4) + wild_tail()
}

fn push_card(deck: &mut Vec<Card>, c: Card)
    ensures
        final(deck)@ == old(deck)@.push(c),
        forall|x: Card|
            #[trigger] final(deck)@.to_multiset().count(x) == old(deck)@.to_multiset().count(x) + (
            if x == c {
                1int
            } else {
                0int
            }),
{
    broadcast use group_to_multiset_ensures;

    deck.push(c);
}

/// The canonical 108-card deck, in a fixed order: for each color in the order
/// Red, Green, Yellow, Blue, its N0, then two of each type from N1 through
/// Reverse; then four times a Wild and a PlusFour, both with the placeholder
/// color.
pub fn build_deck() -> (deck: Vec<Card>)
    ensures
        deck@ == canonical_deck(),
        deck@.len() == 108,
        forall|c: Card| #[trigger] deck@.to_multiset().count(c) == deck_count(c),
{
    let mut deck: Vec<Card> = Vec::with_capacity(108);
    proof {
        broadcast use group_to_multiset_ensures;

        assert(deck@.to_multiset() =~= Multiset::empty());
        assert(deck@ =~= color_blocks(0));
    }
    let mut ci: u32 = 0;
    while ci < 4
        invariant
            ci <= 4,
            deck@.len() == 25 * ci,
            deck@ == color_blocks(ci as nat),
            forall|c: Card|
                #[trigger] deck@.to_multiset().count(c) == (if !c.ty.wild() && c.color.index()
                    < ci {
                    copies_per_color(c.ty)
                } else {
                    0
                }),
        decreases 4 - ci,
    {
        let color = Color::from_index(ci);
        let mut ti: u32 = 0;
        while ti < 13
            invariant
                ci < 4,
                ti <= 13,
                color.index() == ci,
                color == Color::nth(ci as int),
                deck@.len() == 25 * ci + (if ti == 0 {
                    0
                } else {
                    2 * ti - 1
                }),
                deck@ == color_blocks(ci as nat) + color_block(color).subrange(
                    0,
                    if ti == 0 {
                        0
                    } else {
                        2 * ti - 1
                    },
                ),
                forall|c: Card|
                    #[trigger] deck@.to_multiset().count(c) == (if !c.ty.wild() && (
                    c.color.index() < ci || (c.color.index() == ci && c.ty.index() < ti)) {
                        copies_per_color(c.ty)
                    } else {
                        0
                    }),
            decreases 13 - ti,
        {
            let ty = CardType::from_index(ti);
            let ghost start: int = if ti == 0 {
                0
            } else {
                2 * ti - 1
            };
            push_card(&mut deck, Card { ty, color });
            if ti != 0 {
                push_card(&mut deck, Card { ty, color });
            }
            ti += 1;
            proof {
                let block = color_block(color);
                let end: int = 2 * ti - 1;
                assert forall|j: int| start <= j < end implies block[j] == (Card { ty, color }) by {
                    if j != 0 {
                        assert((j + 1) / 2 == ti - 1);
                    }
                }
                assert(deck@ =~= color_blocks(ci as nat) + block.subrange(0, end));
            }
        }
        proof {
            assert(color_block(color).subrange(0, 25) =~= color_block(color));
            assert(color_blocks((ci + 1) as nat) == color_blocks(ci as nat) + color_block(color));
        }
        ci += 1;
    }
    let mut k: u32 = 0;
    while k < 4
        invariant
            k <= 4,
            deck@.len() == 100 + 2 * k,
            deck@ == color_blocks(4) + wild_tail().subrange(0, 2 * k),
            forall|c: Card|
                #[trigger] deck@.to_multiset().count(c) == (if !c.ty.wild() {
                    copies_per_color(c.ty)
                } else if c.color == Color::Red {
                    k as nat
                } else {
                    0
                }),
        decreases 4 - k,
    {
        push_card(&mut deck, Card { ty: CardType::Wild, color: Color::Red });
        push_card(&mut deck, Card { ty: CardType::PlusFour, color: Color::Red });
        k += 1;
        assert(deck@ =~= color_blocks(4) + wild_tail().subrange(0, 2 * k));
    }
    assert(wild_tail().subrange(0, 8) =~= wild_tail());
    deck
}

/// Compatibility is symmetric, except where exactly one of the two cards is
/// wild and their colors differ: the wild side is then compatible and the
/// other is not.
pub proof fn lemma_compatible_symmetric(a: Card, b: Card)
    requires
        a.ty.wild() == b.ty.wild() || a.color == b.color,
    ensures
        a.compatible(b) == b.compatible(a),
{
}

/// A wild card is compatible with any card.
pub proof fn lemma_wild_compatible(a: Card, b: Card)
    requires
        a.ty.wild(),
    ensures
        a.compatible(b),
{
}

/// Reading a card's compact form gives the card back, and every string that
/// reads as a card is that card's compact form.
pub proof fn lemma_compact_round_trip(card: Card, s: Seq<char>)
    ensures
        Card::parse(card.compact()) == Some(card),
        Card::parse(s) is Some ==> Card::parse(s)->Some_0.compact() == s,
{
    if Card::parse(s) is Some {
        assert(s =~= seq![s[0], s[1]]);
    }
}

} // verus!
