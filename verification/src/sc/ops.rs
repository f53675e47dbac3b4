use vstd::prelude::*;

verus! {

/// The operations of the unary operator unit generator.
#[derive(Clone, Copy, Debug, PartialEq, Eq)]
pub enum UnaryOp {
    Neg,
    NotPos,
    IsNil,
    NotNil,
    BitNot,
    Abs,
    AsFloat,
    AsInt,
    Ceil,
    Floor,
    Frac,
    Sign,
    Squared,
    Cubed,
    Sqrt,
    Exp,
    Reciprocal,
    MidiCps,
    CpsMidi,
    MidiRatio,
    RatioMidi,
    DbAmp,
    AmpDb,
    OctCps,
    CpsOct,
    Log,
    Log2,
    Log10,
    Sin,
    Cos,
    Tan,
    Asin,
    Acos,
    Atan,
    Sinh,
    Cosh,
    Tanh,
    Rand,
    Rand2,
    LinRand,
    BilinRand,
    Sum3Rand,
    Distort,
    Softclip,
    Coin,
    DigitVal,
    Silence,
    Thru,
    RectangularWindow,
    HanningWindow,
    WelchWindow,
    TriangleWindow,
    Ramp,
    SCurve,
}

impl UnaryOp {
    /// The number that stands for this operation in a unit generator's
    /// special index.
    pub open spec fn spec_code(self) -> i16 {
        match self {
            UnaryOp::Neg => 0,
            UnaryOp::NotPos => 1,
            UnaryOp::IsNil => 2,
            UnaryOp::NotNil => 3,
            UnaryOp::BitNot => 4,
            UnaryOp::Abs => 5,
            UnaryOp::AsFloat => 6,
            UnaryOp::AsInt => 7,
            UnaryOp::Ceil => 8,
            UnaryOp::Floor => 9,
            UnaryOp::Frac => 10,
            UnaryOp::Sign => 11,
            UnaryOp::Squared => 12,
            UnaryOp::Cubed => 13,
            UnaryOp::Sqrt => 14,
            UnaryOp::Exp => 15,
            UnaryOp::Reciprocal => 16,
            UnaryOp::MidiCps => 17,
            UnaryOp::CpsMidi => 18,
            UnaryOp::MidiRatio => 19,
            UnaryOp::RatioMidi => 20,
            UnaryOp::DbAmp => 21,
            UnaryOp::AmpDb => 22,
            UnaryOp::OctCps => 23,
            UnaryOp::CpsOct => 24,
            UnaryOp::Log => 25,
            UnaryOp::Log2 => 26,
            UnaryOp::Log10 => 27,
            UnaryOp::Sin => 28,
            UnaryOp::Cos => 29,
            UnaryOp::Tan => 30,
            UnaryOp::Asin => 31,
            UnaryOp::Acos => 32,
            UnaryOp::Atan => 33,
            UnaryOp::Sinh => 34,
            UnaryOp::Cosh => 35,
            UnaryOp::Tanh => 36,
            UnaryOp::Rand => 37,
            UnaryOp::Rand2 => 38,
            UnaryOp::LinRand => 39,
            UnaryOp::BilinRand => 40,
            UnaryOp::Sum3Rand => 41,
            UnaryOp::Distort => 42,
            UnaryOp::Softclip => 43,
            UnaryOp::Coin => 44,
            UnaryOp::DigitVal => 45,
            UnaryOp::Silence => 46,
            UnaryOp::Thru => 47,
            UnaryOp::RectangularWindow => 48,
            UnaryOp::HanningWindow => 49,
            UnaryOp::WelchWindow => 50,
            UnaryOp::TriangleWindow => 51,
            UnaryOp::Ramp => 52,
            UnaryOp::SCurve => 53,
        }
    }

    /// The number that stands for this operation.
    pub fn as_i16(self) -> (r: i16)
        ensures
            r == self.spec_code(),
    {
        match self {
            UnaryOp::Neg => 0,
            UnaryOp::NotPos => 1,
            UnaryOp::IsNil => 2,
            UnaryOp::NotNil => 3,
            UnaryOp::BitNot => 4,
            UnaryOp::Abs => 5,
            UnaryOp::AsFloat => 6,
            UnaryOp::AsInt => 7,
            UnaryOp::Ceil => 8,
            UnaryOp::Floor => 9,
            UnaryOp::Frac => 10,
            UnaryOp::Sign => 11,
            UnaryOp::Squared => 12,
            UnaryOp::Cubed => 13,
            UnaryOp::Sqrt => 14,
            UnaryOp::Exp => 15,
            UnaryOp::Reciprocal => 16,
            UnaryOp::MidiCps => 17,
            UnaryOp::CpsMidi => 18,
            UnaryOp::MidiRatio => 19,
            UnaryOp::RatioMidi => 20,
            UnaryOp::DbAmp => 21,
            UnaryOp::AmpDb => 22,
            UnaryOp::OctCps => 23,
            UnaryOp::CpsOct => 24,
            UnaryOp::Log => 25,
            UnaryOp::Log2 => 26,
            UnaryOp::Log10 => 27,
            UnaryOp::Sin => 28,
            UnaryOp::Cos => 29,
            UnaryOp::Tan => 30,
            UnaryOp::Asin => 31,
            UnaryOp::Acos => 32,
            UnaryOp::Atan => 33,
            UnaryOp::Sinh => 34,
            UnaryOp::Cosh => 35,
            UnaryOp::Tanh => 36,
            UnaryOp::Rand => 37,
            UnaryOp::Rand2 => 38,
            UnaryOp::LinRand => 39,
            UnaryOp::BilinRand => 40,
            UnaryOp::Sum3Rand => 41,
            UnaryOp::Distort => 42,
            UnaryOp::Softclip => 43,
            UnaryOp::Coin => 44,
            UnaryOp::DigitVal => 45,
            UnaryOp::Silence => 46,
            UnaryOp::Thru => 47,
            UnaryOp::RectangularWindow => 48,
            UnaryOp::HanningWindow => 49,
            UnaryOp::WelchWindow => 50,
            UnaryOp::TriangleWindow => 51,
            UnaryOp::Ramp => 52,
            UnaryOp::SCurve => 53,
        }
    }

    /// The operation that the number stands for, if any.
    pub fn from_i16(v: i16) -> (r: Option<Self>)
        ensures
            r is Some <==> 0 <= v <= 53,
            r matches Some(op) ==> op.spec_code() == v,
    {
        match v {
            0 => Some(UnaryOp::Neg),
            1 => Some(UnaryOp::NotPos),
            2 => Some(UnaryOp::IsNil),
            3 => Some(UnaryOp::NotNil),
            4 => Some(UnaryOp::BitNot),
            5 => Some(UnaryOp::Abs),
            6 => Some(UnaryOp::AsFloat),
            7 => Some(UnaryOp::AsInt),
            8 => Some(UnaryOp::Ceil),
            9 => Some(UnaryOp::Floor),
            10 => Some(UnaryOp::Frac),
            11 => Some(UnaryOp::Sign),
            12 => Some(UnaryOp::Squared),
            13 => Some(UnaryOp::Cubed),
            14 => Some(UnaryOp::Sqrt),
            15 => Some(UnaryOp::Exp),
            16 => Some(UnaryOp::Reciprocal),
            17 => Some(UnaryOp::MidiCps),
            18 => Some(UnaryOp::CpsMidi),
            19 => Some(UnaryOp::MidiRatio),
            20 => Some(UnaryOp::RatioMidi),
            21 => Some(UnaryOp::DbAmp),
            22 => Some(UnaryOp::AmpDb),
            23 => Some(UnaryOp::OctCps),
            24 => Some(UnaryOp::CpsOct),
            25 => Some(UnaryOp::Log),
            26 => Some(UnaryOp::Log2),
            27 => Some(UnaryOp::Log10),
            28 => Some(UnaryOp::Sin),
            29 => Some(UnaryOp::Cos),
            30 => Some(UnaryOp::Tan),
            31 => Some(UnaryOp::Asin),
            32 => Some(UnaryOp::Acos),
            33 => Some(UnaryOp::Atan),
            34 => Some(UnaryOp::Sinh),
            35 => Some(UnaryOp::Cosh),
            36 => Some(UnaryOp::Tanh),
            37 => Some(UnaryOp::Rand),
            38 => Some(UnaryOp::Rand2),
            39 => Some(UnaryOp::LinRand),
            40 => Some(UnaryOp::BilinRand),
            41 => Some(UnaryOp::Sum3Rand),
            42 => Some(UnaryOp::Distort),
            43 => Some(UnaryOp::Softclip),
            44 => Some(UnaryOp::Coin),
            45 => Some(UnaryOp::DigitVal),
            46 => Some(UnaryOp::Silence),
            47 => Some(UnaryOp::Thru),
            48 => Some(UnaryOp::RectangularWindow),
            49 => Some(UnaryOp::HanningWindow),
            50 => Some(UnaryOp::WelchWindow),
            51 => Some(UnaryOp::TriangleWindow),
            52 => Some(UnaryOp::Ramp),
            53 => Some(UnaryOp::SCurve),
            _ => None,
        }
    }
}

/// Different operations stand for different numbers, so the number of an
/// operation gives back that operation and no other.
pub proof fn lemma_unary_op_code_injective(a: UnaryOp, b: UnaryOp)
    requires
        a.spec_code() == b.spec_code(),
    ensures
        a == b,
{
}

/// The operations of the binary operator unit generator.
#[derive(Clone, Copy, Debug, PartialEq, Eq)]
pub enum BinaryOp {
    Add,
    Subtract,
    Multiply,
    /// Not implemented on the server
    Div,
    Divide,
    Modulus,
    Equal,
    NotEqual,
    LessThan,
    GreaterThan,
    LessThanOrEqual,
    GreaterThanOrEqual,
    Minimum,
    Maximum,
    And,
    Or,
    Xor,
    /// Not implemented on the server
    Lcm,
    /// Not implemented on the server
    Gcd,
    Round,
    RoundUp,
    RoundDown,
    Atan2,
    Hypotenuse,
    HypotenuseApprox,
    Pow,
    /// Not implemented on the server
    LeftShift,
    /// Not implemented on the server
    RightShift,
    /// Not implemented on the server
    UnRightShift,
    /// Not implemented on the server
    Fill,
    Ring1,
    Ring2,
    Ring3,
    Ring4,
    DifSqr,
    SqrSum,
    SqrDif,
    AbsDif,
    Thresh,
    AmClip,
    ScaleNeg,
    Clip2,
    Excess,
    Fold2,
    Wrap2,
    FirstArg,
    /// Not implemented on the server
    RRand,
    /// Not implemented on the server
    ExpRand,
}

impl BinaryOp {
    /// The number that stands for this operation in a unit generator's
    /// special index.
    pub open spec fn spec_code(self) -> i16 {
        match self {
            BinaryOp::Add => 0,
            BinaryOp::Subtract => 1,
            BinaryOp::Multiply => 2,
            BinaryOp::Div => 3,
            BinaryOp::Divide => 4,
            BinaryOp::Modulus => 5,
            BinaryOp::Equal => 6,
            BinaryOp::NotEqual => 7,
            BinaryOp::LessThan => 8,
            BinaryOp::GreaterThan => 9,
            BinaryOp::LessThanOrEqual => 10,
            BinaryOp::GreaterThanOrEqual => 11,
            BinaryOp::Minimum => 12,
            BinaryOp::Maximum => 13,
            BinaryOp::And => 14,
            BinaryOp::Or => 15,
            BinaryOp::Xor => 16,
            BinaryOp::Lcm => 17,
            BinaryOp::Gcd => 18,
            BinaryOp::Round => 19,
            BinaryOp::RoundUp => 20,
            BinaryOp::RoundDown => 21,
            BinaryOp::Atan2 => 22,
            BinaryOp::Hypotenuse => 23,
            BinaryOp::HypotenuseApprox => 24,
            BinaryOp::Pow => 25,
            BinaryOp::LeftShift => 26,
            BinaryOp::RightShift => 27,
            BinaryOp::UnRightShift => 28,
            BinaryOp::Fill => 29,
            BinaryOp::Ring1 => 30,
            BinaryOp::Ring2 => 31,
            BinaryOp::Ring3 => 32,
            BinaryOp::Ring4 => 33,
            BinaryOp::DifSqr => 34,
            BinaryOp::SqrSum => 36,
            BinaryOp::SqrDif => 37,
            BinaryOp::AbsDif => 38,
            BinaryOp::Thresh => 39,
            BinaryOp::AmClip => 40,
            BinaryOp::ScaleNeg => 41,
            BinaryOp::Clip2 => 42,
            BinaryOp::Excess => 43,
            BinaryOp::Fold2 => 44,
            BinaryOp::Wrap2 => 45,
            BinaryOp::FirstArg => 46,
            BinaryOp::RRand => 47,
            BinaryOp::ExpRand => 48,
        }
    }

    /// The number that stands for this operation.
    pub fn as_i16(self) -> (r: i16)
        ensures
            r == self.spec_code(),
    {
        match self {
            BinaryOp::Add => 0,
            BinaryOp::Subtract => 1,
            BinaryOp::Multiply => 2,
            BinaryOp::Div => 3,
            BinaryOp::Divide => 4,
            BinaryOp::Modulus => 5,
            BinaryOp::Equal => 6,
            BinaryOp::NotEqual => 7,
            BinaryOp::LessThan => 8,
            BinaryOp::GreaterThan => 9,
            BinaryOp::LessThanOrEqual => 10,
            BinaryOp::GreaterThanOrEqual => 11,
            BinaryOp::Minimum => 12,
            BinaryOp::Maximum => 13,
            BinaryOp::And => 14,
            BinaryOp::Or => 15,
            BinaryOp::Xor => 16,
            BinaryOp::Lcm => 17,
            BinaryOp::Gcd => 18,
            BinaryOp::Round => 19,
            BinaryOp::RoundUp => 20,
            BinaryOp::RoundDown => 21,
            BinaryOp::Atan2 => 22,
            BinaryOp::Hypotenuse => 23,
            BinaryOp::HypotenuseApprox => 24,
            BinaryOp::Pow => 25,
            BinaryOp::LeftShift => 26,
            BinaryOp::RightShift => 27,
            BinaryOp::UnRightShift => 28,
            BinaryOp::Fill => 29,
            BinaryOp::Ring1 => 30,
            BinaryOp::Ring2 => 31,
            BinaryOp::Ring3 => 32,
            BinaryOp::Ring4 => 33,
            BinaryOp::DifSqr => 34,
            BinaryOp::SqrSum => 36,
            BinaryOp::SqrDif => 37,
            BinaryOp::AbsDif => 38,
            BinaryOp::Thresh => 39,
            BinaryOp::AmClip => 40,
            BinaryOp::ScaleNeg => 41,
            BinaryOp::Clip2 => 42,
            BinaryOp::Excess => 43,
            BinaryOp::Fold2 => 44,
            BinaryOp::Wrap2 => 45,
            BinaryOp::FirstArg => 46,
            BinaryOp::RRand => 47,
            BinaryOp::ExpRand => 48,
        }
    }

    /// The operation that the number stands for, if any.
    pub fn from_i16(v: i16) -> (r: Option<Self>)
        ensures
            r is Some <==> 0 <= v <= 48 && v != 35,
            r matches Some(op) ==> op.spec_code() == v,
    {
        match v {
            0 => Some(BinaryOp::Add),
            1 => Some(BinaryOp::Subtract),
            2 => Some(BinaryOp::Multiply),
            3 => Some(BinaryOp::Div),
            4 => Some(BinaryOp::Divide),
            5 => Some(BinaryOp::Modulus),
            6 => Some(BinaryOp::Equal),
            7 => Some(BinaryOp::NotEqual),
            8 => Some(BinaryOp::LessThan),
            9 => Some(BinaryOp::GreaterThan),
            10 => Some(BinaryOp::LessThanOrEqual),
            11 => Some(BinaryOp::GreaterThanOrEqual),
            12 => Some(BinaryOp::Minimum),
            13 => Some(BinaryOp::Maximum),
            14 => Some(BinaryOp::And),
            15 => Some(BinaryOp::Or),
            16 => Some(BinaryOp::Xor),
            17 => Some(BinaryOp::Lcm),
            18 => Some(BinaryOp::Gcd),
            19 => Some(BinaryOp::Round),
            20 => Some(BinaryOp::RoundUp),
            21 => Some(BinaryOp::RoundDown),
            22 => Some(BinaryOp::Atan2),
            23 => Some(BinaryOp::Hypotenuse),
            24 => Some(BinaryOp::HypotenuseApprox),
            25 => Some(BinaryOp::Pow),
            26 => Some(BinaryOp::LeftShift),
            27 => Some(BinaryOp::RightShift),
            28 => Some(BinaryOp::UnRightShift),
            29 => Some(BinaryOp::Fill),
            30 => Some(BinaryOp::Ring1),
            31 => Some(BinaryOp::Ring2),
            32 => Some(BinaryOp::Ring3),
            33 => Some(BinaryOp::Ring4),
            34 => Some(BinaryOp::DifSqr),
            36 => Some(BinaryOp::SqrSum),
            37 => Some(BinaryOp::SqrDif),
            38 => Some(BinaryOp::AbsDif),
            39 => Some(BinaryOp::Thresh),
            40 => Some(BinaryOp::AmClip),
            41 => Some(BinaryOp::ScaleNeg),
            42 => Some(BinaryOp::Clip2),
            43 => Some(BinaryOp::Excess),
            44 => Some(BinaryOp::Fold2),
            45 => Some(BinaryOp::Wrap2),
            46 => Some(BinaryOp::FirstArg),
            47 => Some(BinaryOp::RRand),
            48 => Some(BinaryOp::ExpRand),
            _ => None,
        }
    }
}

/// Different operations stand for different numbers, so the number of an
/// operation gives back that operation and no other.
pub proof fn lemma_binary_op_code_injective(a: BinaryOp, b: BinaryOp)
    requires
        a.spec_code() == b.spec_code(),
    ensures
        a == b,
{
}


impl UnaryOp {
    /// The name of the operation, as its variant is written.
    pub open spec fn spec_name(self) -> Seq<char> {
        match self {
            UnaryOp::Neg => "Neg"@,
            UnaryOp::NotPos => "NotPos"@,
            UnaryOp::IsNil => "IsNil"@,
            UnaryOp::NotNil => "NotNil"@,
            UnaryOp::BitNot => "BitNot"@,
            UnaryOp::Abs => "Abs"@,
            UnaryOp::AsFloat => "AsFloat"@,
            UnaryOp::AsInt => "AsInt"@,
            UnaryOp::Ceil => "Ceil"@,
            UnaryOp::Floor => "Floor"@,
            UnaryOp::Frac => "Frac"@,
            UnaryOp::Sign => "Sign"@,
            UnaryOp::Squared => "Squared"@,
            UnaryOp::Cubed => "Cubed"@,
            UnaryOp::Sqrt => "Sqrt"@,
            UnaryOp::Exp => "Exp"@,
            UnaryOp::Reciprocal => "Reciprocal"@,
            UnaryOp::MidiCps => "MidiCps"@,
            UnaryOp::CpsMidi => "CpsMidi"@,
            UnaryOp::MidiRatio => "MidiRatio"@,
            UnaryOp::RatioMidi => "RatioMidi"@,
            UnaryOp::DbAmp => "DbAmp"@,
            UnaryOp::AmpDb => "AmpDb"@,
            UnaryOp::OctCps => "OctCps"@,
            UnaryOp::CpsOct => "CpsOct"@,
            UnaryOp::Log => "Log"@,
            UnaryOp::Log2 => "Log2"@,
            UnaryOp::Log10 => "Log10"@,
            UnaryOp::Sin => "Sin"@,
            UnaryOp::Cos => "Cos"@,
            UnaryOp::Tan => "Tan"@,
            UnaryOp::Asin => "Asin"@,
            UnaryOp::Acos => "Acos"@,
            UnaryOp::Atan => "Atan"@,
            UnaryOp::Sinh => "Sinh"@,
            UnaryOp::Cosh => "Cosh"@,
            UnaryOp::Tanh => "Tanh"@,
            UnaryOp::Rand => "Rand"@,
            UnaryOp::Rand2 => "Rand2"@,
            UnaryOp::LinRand => "LinRand"@,
            UnaryOp::BilinRand => "BilinRand"@,
            UnaryOp::Sum3Rand => "Sum3Rand"@,
            UnaryOp::Distort => "Distort"@,
            UnaryOp::Softclip => "Softclip"@,
            UnaryOp::Coin => "Coin"@,
            UnaryOp::DigitVal => "DigitVal"@,
            UnaryOp::Silence => "Silence"@,
            UnaryOp::Thru => "Thru"@,
            UnaryOp::RectangularWindow => "RectangularWindow"@,
            UnaryOp::HanningWindow => "HanningWindow"@,
            UnaryOp::WelchWindow => "WelchWindow"@,
            UnaryOp::TriangleWindow => "TriangleWindow"@,
            UnaryOp::Ramp => "Ramp"@,
            UnaryOp::SCurve => "SCurve"@,
        }
    }

    /// The name of the operation, as its variant is written.
    pub fn name(self) -> (r: &'static str)
        ensures
            r@ == self.spec_name(),
    {
        match self {
            UnaryOp::Neg => "Neg",
            UnaryOp::NotPos => "NotPos",
            UnaryOp::IsNil => "IsNil",
            UnaryOp::NotNil => "NotNil",
            UnaryOp::BitNot => "BitNot",
            UnaryOp::Abs => "Abs",
            UnaryOp::AsFloat => "AsFloat",
            UnaryOp::AsInt => "AsInt",
            UnaryOp::Ceil => "Ceil",
            UnaryOp::Floor => "Floor",
            UnaryOp::Frac => "Frac",
            UnaryOp::Sign => "Sign",
            UnaryOp::Squared => "Squared",
            UnaryOp::Cubed => "Cubed",
            UnaryOp::Sqrt => "Sqrt",
            UnaryOp::Exp => "Exp",
            UnaryOp::Reciprocal => "Reciprocal",
            UnaryOp::MidiCps => "MidiCps",
            UnaryOp::CpsMidi => "CpsMidi",
            UnaryOp::MidiRatio => "MidiRatio",
            UnaryOp::RatioMidi => "RatioMidi",
            UnaryOp::DbAmp => "DbAmp",
            UnaryOp::AmpDb => "AmpDb",
            UnaryOp::OctCps => "OctCps",
            UnaryOp::CpsOct => "CpsOct",
            UnaryOp::Log => "Log",
            UnaryOp::Log2 => "Log2",
            UnaryOp::Log10 => "Log10",
            UnaryOp::Sin => "Sin",
            UnaryOp::Cos => "Cos",
            UnaryOp::Tan => "Tan",
            UnaryOp::Asin => "Asin",
            UnaryOp::Acos => "Acos",
            UnaryOp::Atan => "Atan",
            UnaryOp::Sinh => "Sinh",
            UnaryOp::Cosh => "Cosh",
            UnaryOp::Tanh => "Tanh",
            UnaryOp::Rand => "Rand",
            UnaryOp::Rand2 => "Rand2",
            UnaryOp::LinRand => "LinRand",
            UnaryOp::BilinRand => "BilinRand",
            UnaryOp::Sum3Rand => "Sum3Rand",
            UnaryOp::Distort => "Distort",
            UnaryOp::Softclip => "Softclip",
            UnaryOp::Coin => "Coin",
            UnaryOp::DigitVal => "DigitVal",
            UnaryOp::Silence => "Silence",
            UnaryOp::Thru => "Thru",
            UnaryOp::RectangularWindow => "RectangularWindow",
            UnaryOp::HanningWindow => "HanningWindow",
            UnaryOp::WelchWindow => "WelchWindow",
            UnaryOp::TriangleWindow => "TriangleWindow",
            UnaryOp::Ramp => "Ramp",
            UnaryOp::SCurve => "SCurve",
        }
    }
}

impl BinaryOp {
    /// The name of the operation, as its variant is written.
    pub open spec fn spec_name(self) -> Seq<char> {
        match self {
            BinaryOp::Add => "Add"@,
            BinaryOp::Subtract => "Subtract"@,
            BinaryOp::Multiply => "Multiply"@,
            BinaryOp::Div => "Div"@,
            BinaryOp::Divide => "Divide"@,
            BinaryOp::Modulus => "Modulus"@,
            BinaryOp::Equal => "Equal"@,
            BinaryOp::NotEqual => "NotEqual"@,
            BinaryOp::LessThan => "LessThan"@,
            BinaryOp::GreaterThan => "GreaterThan"@,
            BinaryOp::LessThanOrEqual => "LessThanOrEqual"@,
            BinaryOp::GreaterThanOrEqual => "GreaterThanOrEqual"@,
            BinaryOp::Minimum => "Minimum"@,
            BinaryOp::Maximum => "Maximum"@,
            BinaryOp::And => "And"@,
            BinaryOp::Or => "Or"@,
            BinaryOp::Xor => "Xor"@,
            BinaryOp::Lcm => "Lcm"@,
            BinaryOp::Gcd => "Gcd"@,
            BinaryOp::Round => "Round"@,
            BinaryOp::RoundUp => "RoundUp"@,
            BinaryOp::RoundDown => "RoundDown"@,
            BinaryOp::Atan2 => "Atan2"@,
            BinaryOp::Hypotenuse => "Hypotenuse"@,
            BinaryOp::HypotenuseApprox => "HypotenuseApprox"@,
            BinaryOp::Pow => "Pow"@,
            BinaryOp::LeftShift => "LeftShift"@,
            BinaryOp::RightShift => "RightShift"@,
            BinaryOp::UnRightShift => "UnRightShift"@,
            BinaryOp::Fill => "Fill"@,
            BinaryOp::Ring1 => "Ring1"@,
            BinaryOp::Ring2 => "Ring2"@,
            BinaryOp::Ring3 => "Ring3"@,
            BinaryOp::Ring4 => "Ring4"@,
            BinaryOp::DifSqr => "DifSqr"@,
            BinaryOp::SqrSum => "SqrSum"@,
            BinaryOp::SqrDif => "SqrDif"@,
            BinaryOp::AbsDif => "AbsDif"@,
            BinaryOp::Thresh => "Thresh"@,
            BinaryOp::AmClip => "AmClip"@,
            BinaryOp::ScaleNeg => "ScaleNeg"@,
            BinaryOp::Clip2 => "Clip2"@,
            BinaryOp::Excess => "Excess"@,
            BinaryOp::Fold2 => "Fold2"@,
            BinaryOp::Wrap2 => "Wrap2"@,
            BinaryOp::FirstArg => "FirstArg"@,
            BinaryOp::RRand => "RRand"@,
            BinaryOp::ExpRand => "ExpRand"@,
        }
    }

    /// The name of the operation, as its variant is written.
    pub fn name(self) -> (r: &'static str)
        ensures
            r@ == self.spec_name(),
    {
        match self {
            BinaryOp::Add => "Add",
            BinaryOp::Subtract => "Subtract",
            BinaryOp::Multiply => "Multiply",
            BinaryOp::Div => "Div",
            BinaryOp::Divide => "Divide",
            BinaryOp::Modulus => "Modulus",
            BinaryOp::Equal => "Equal",
            BinaryOp::NotEqual => "NotEqual",
            BinaryOp::LessThan => "LessThan",
            BinaryOp::GreaterThan => "GreaterThan",
            BinaryOp::LessThanOrEqual => "LessThanOrEqual",
            BinaryOp::GreaterThanOrEqual => "GreaterThanOrEqual",
            BinaryOp::Minimum => "Minimum",
            BinaryOp::Maximum => "Maximum",
            BinaryOp::And => "And",
            BinaryOp::Or => "Or",
            BinaryOp::Xor => "Xor",
            BinaryOp::Lcm => "Lcm",
            BinaryOp::Gcd => "Gcd",
            BinaryOp::Round => "Round",
            BinaryOp::RoundUp => "RoundUp",
            BinaryOp::RoundDown => "RoundDown",
            BinaryOp::Atan2 => "Atan2",
            BinaryOp::Hypotenuse => "Hypotenuse",
            BinaryOp::HypotenuseApprox => "HypotenuseApprox",
            BinaryOp::Pow => "Pow",
            BinaryOp::LeftShift => "LeftShift",
            BinaryOp::RightShift => "RightShift",
            BinaryOp::UnRightShift => "UnRightShift",
            BinaryOp::Fill => "Fill",
            BinaryOp::Ring1 => "Ring1",
            BinaryOp::Ring2 => "Ring2",
            BinaryOp::Ring3 => "Ring3",
            BinaryOp::Ring4 => "Ring4",
            BinaryOp::DifSqr => "DifSqr",
            BinaryOp::SqrSum => "SqrSum",
            BinaryOp::SqrDif => "SqrDif",
            BinaryOp::AbsDif => "AbsDif",
            BinaryOp::Thresh => "Thresh",
            BinaryOp::AmClip => "AmClip",
            BinaryOp::ScaleNeg => "ScaleNeg",
            BinaryOp::Clip2 => "Clip2",
            BinaryOp::Excess => "Excess",
            BinaryOp::Fold2 => "Fold2",
            BinaryOp::Wrap2 => "Wrap2",
            BinaryOp::FirstArg => "FirstArg",
            BinaryOp::RRand => "RRand",
            BinaryOp::ExpRand => "ExpRand",
        }
    }
}


/// Each unary operation is written as SuperCollider's number for it.
pub proof fn lemma_unary_op_codes()
    ensures
        UnaryOp::Neg.spec_code() == 0,
        UnaryOp::NotPos.spec_code() == 1,
        UnaryOp::IsNil.spec_code() == 2,
        UnaryOp::NotNil.spec_code() == 3,
        UnaryOp::BitNot.spec_code() == 4,
        UnaryOp::Abs.spec_code() == 5,
        UnaryOp::AsFloat.spec_code() == 6,
        UnaryOp::AsInt.spec_code() == 7,
        UnaryOp::Ceil.spec_code() == 8,
        UnaryOp::Floor.spec_code() == 9,
        UnaryOp::Frac.spec_code() == 10,
        UnaryOp::Sign.spec_code() == 11,
        UnaryOp::Squared.spec_code() == 12,
        UnaryOp::Cubed.spec_code() == 13,
        UnaryOp::Sqrt.spec_code() == 14,
        UnaryOp::Exp.spec_code() == 15,
        UnaryOp::Reciprocal.spec_code() == 16,
        UnaryOp::MidiCps.spec_code() == 17,
        UnaryOp::CpsMidi.spec_code() == 18,
        UnaryOp::MidiRatio.spec_code() == 19,
        UnaryOp::RatioMidi.spec_code() == 20,
        UnaryOp::DbAmp.spec_code() == 21,
        UnaryOp::AmpDb.spec_code() == 22,
        UnaryOp::OctCps.spec_code() == 23,
        UnaryOp::CpsOct.spec_code() == 24,
        UnaryOp::Log.spec_code() == 25,
        UnaryOp::Log2.spec_code() == 26,
        UnaryOp::Log10.spec_code() == 27,
        UnaryOp::Sin.spec_code() == 28,
        UnaryOp::Cos.spec_code() == 29,
        UnaryOp::Tan.spec_code() == 30,
        UnaryOp::Asin.spec_code() == 31,
        UnaryOp::Acos.spec_code() == 32,
        UnaryOp::Atan.spec_code() == 33,
        UnaryOp::Sinh.spec_code() == 34,
        UnaryOp::Cosh.spec_code() == 35,
        UnaryOp::Tanh.spec_code() == 36,
        UnaryOp::Rand.spec_code() == 37,
        UnaryOp::Rand2.spec_code() == 38,
        UnaryOp::LinRand.spec_code() == 39,
        UnaryOp::BilinRand.spec_code() == 40,
        UnaryOp::Sum3Rand.spec_code() == 41,
        UnaryOp::Distort.spec_code() == 42,
        UnaryOp::Softclip.spec_code() == 43,
        UnaryOp::Coin.spec_code() == 44,
        UnaryOp::DigitVal.spec_code() == 45,
        UnaryOp::Silence.spec_code() == 46,
        UnaryOp::Thru.spec_code() == 47,
        UnaryOp::RectangularWindow.spec_code() == 48,
        UnaryOp::HanningWindow.spec_code() == 49,
        UnaryOp::WelchWindow.spec_code() == 50,
        UnaryOp::TriangleWindow.spec_code() == 51,
        UnaryOp::Ramp.spec_code() == 52,
        UnaryOp::SCurve.spec_code() == 53,
{
}

/// Each binary operation is written as SuperCollider's number for it.
pub proof fn lemma_binary_op_codes()
    ensures
        BinaryOp::Add.spec_code() == 0,
        BinaryOp::Subtract.spec_code() == 1,
        BinaryOp::Multiply.spec_code() == 2,
        BinaryOp::Div.spec_code() == 3,
        BinaryOp::Divide.spec_code() == 4,
        BinaryOp::Modulus.spec_code() == 5,
        BinaryOp::Equal.spec_code() == 6,
        BinaryOp::NotEqual.spec_code() == 7,
        BinaryOp::LessThan.spec_code() == 8,
        BinaryOp::GreaterThan.spec_code() == 9,
        BinaryOp::LessThanOrEqual.spec_code() == 10,
        BinaryOp::GreaterThanOrEqual.spec_code() == 11,
        BinaryOp::Minimum.spec_code() == 12,
        BinaryOp::Maximum.spec_code() == 13,
        BinaryOp::And.spec_code() == 14,
        BinaryOp::Or.spec_code() == 15,
        BinaryOp::Xor.spec_code() == 16,
        BinaryOp::Lcm.spec_code() == 17,
        BinaryOp::Gcd.spec_code() == 18,
        BinaryOp::Round.spec_code() == 19,
        BinaryOp::RoundUp.spec_code() == 20,
        BinaryOp::RoundDown.spec_code() == 21,
        BinaryOp::Atan2.spec_code() == 22,
        BinaryOp::Hypotenuse.spec_code() == 23,
        BinaryOp::HypotenuseApprox.spec_code() == 24,
        BinaryOp::Pow.spec_code() == 25,
        BinaryOp::LeftShift.spec_code() == 26,
        BinaryOp::RightShift.spec_code() == 27,
        BinaryOp::UnRightShift.spec_code() == 28,
        BinaryOp::Fill.spec_code() == 29,
        BinaryOp::Ring1.spec_code() == 30,
        BinaryOp::Ring2.spec_code() == 31,
        BinaryOp::Ring3.spec_code() == 32,
        BinaryOp::Ring4.spec_code() == 33,
        BinaryOp::DifSqr.spec_code() == 34,
        BinaryOp::SqrSum.spec_code() == 36,
        BinaryOp::SqrDif.spec_code() == 37,
        BinaryOp::AbsDif.spec_code() == 38,
        BinaryOp::Thresh.spec_code() == 39,
        BinaryOp::AmClip.spec_code() == 40,
        BinaryOp::ScaleNeg.spec_code() == 41,
        BinaryOp::Clip2.spec_code() == 42,
        BinaryOp::Excess.spec_code() == 43,
        BinaryOp::Fold2.spec_code() == 44,
        BinaryOp::Wrap2.spec_code() == 45,
        BinaryOp::FirstArg.spec_code() == 46,
        BinaryOp::RRand.spec_code() == 47,
        BinaryOp::ExpRand.spec_code() == 48,
{
}

} // verus!
