use compact_arrays::signed::{Signed16, Signed32, Signed64, Signed8, SignedPrimitive};
use compact_arrays::symmetric::{Symmetric16, Symmetric32, Symmetric64, Symmetric8};

#[test]
fn signed8() {
    assert_eq!(<i8 as SignedPrimitive>::zero(), 0);
    assert_eq!(<i8 as SignedPrimitive>::one(), 1);
    assert_eq!(<i8 as SignedPrimitive>::min_value(), -128);
    assert_eq!(<i8 as SignedPrimitive>::max_value(), 127);
    assert_eq!(Signed8::min_value(), Signed8::of(-128));
    assert_eq!(Signed8::max_value(), Signed8::of(127));
}

#[test]
fn signed16() {
    assert_eq!(<i16 as SignedPrimitive>::zero(), 0);
    assert_eq!(<i16 as SignedPrimitive>::one(), 1);
    assert_eq!(<i16 as SignedPrimitive>::min_value(), -32768);
    assert_eq!(<i16 as SignedPrimitive>::max_value(), 32767);
    assert_eq!(Signed16::min_value(), Signed16::of(-32768));
    assert_eq!(Signed16::max_value(), Signed16::of(32767));
}

#[test]
fn signed32() {
    assert_eq!(<i32 as SignedPrimitive>::zero(), 0);
    assert_eq!(<i32 as SignedPrimitive>::one(), 1);
    assert_eq!(<i32 as SignedPrimitive>::min_value(), -2147483648);
    assert_eq!(<i32 as SignedPrimitive>::max_value(), 2147483647);
    assert_eq!(Signed32::min_value(), Signed32::of(-2147483648));
    assert_eq!(Signed32::max_value(), Signed32::of(2147483647));
}

#[test]
fn signed64() {
    assert_eq!(<i64 as SignedPrimitive>::zero(), 0);
    assert_eq!(<i64 as SignedPrimitive>::one(), 1);
    assert_eq!(<i64 as SignedPrimitive>::min_value(), -9223372036854775808);
    assert_eq!(<i64 as SignedPrimitive>::max_value(), 9223372036854775807);
    assert_eq!(Signed64::min_value(), Signed64::of(-9223372036854775808));
    assert_eq!(Signed64::max_value(), Signed64::of(9223372036854775807));
}

#[test]
fn symmetric8() {
    let zero = Symmetric8::default();
    assert_eq!(zero, Symmetric8::of(0));
    assert_eq!(zero.to_i64(), Some(0));
    assert_eq!(zero.to_u64(), Some(0));

    let eno = Symmetric8::of(-1);
    assert_eq!(eno.to_i64(), Some(-1));
    assert_eq!(eno.to_u64(), None);

    let max = Symmetric8::max_value();
    assert_eq!(max, Symmetric8::of(127));
    assert_eq!(max.to_i64(), Some(127));
    assert_eq!(max.to_u64(), Some(127));

    let min = Symmetric8::min();
    assert_eq!(min, Symmetric8::of(-127));
    assert_eq!(min.to_i64(), Some(-127));
    assert_eq!(min.to_u64(), None);
    assert_eq!(min.is_null(), false);
    assert_eq!(min.is_not_null(), true);

    let null = Symmetric8::null();
    assert_eq!(null, Symmetric8::of(-128));
    assert_eq!(null.to_i64(), None);
    assert_eq!(null.to_u64(), None);
    assert_eq!(null.is_null(), true);
    assert_eq!(null.is_not_null(), false);
}

#[test]
fn symmetric16() {
    let zero = Symmetric16::default();
    assert_eq!(zero, Symmetric16::of(0));
    assert_eq!(zero.to_i64(), Some(0));
    assert_eq!(zero.to_u64(), Some(0));

    let eno = Symmetric16::of(-1);
    assert_eq!(eno.to_i64(), Some(-1));
    assert_eq!(eno.to_u64(), None);

    let max = Symmetric16::max_value();
    assert_eq!(max, Symmetric16::of(32767));
    assert_eq!(max.to_i64(), Some(32767));
    assert_eq!(max.to_u64(), Some(32767));

    let min = Symmetric16::min();
    assert_eq!(min, Symmetric16::of(-32767));
    assert_eq!(min.to_i64(), Some(-32767));
    assert_eq!(min.to_u64(), None);
    assert_eq!(min.is_null(), false);
    assert_eq!(min.is_not_null(), true);

    let null = Symmetric16::null();
    assert_eq!(null, Symmetric16::of(-32768));
    assert_eq!(null.to_i64(), None);
    assert_eq!(null.to_u64(), None);
    assert_eq!(null.is_null(), true);
    assert_eq!(null.is_not_null(), false);
}

#[test]
fn symmetric32() {
    let zero = Symmetric32::default();
    assert_eq!(zero, Symmetric32::of(0));
    assert_eq!(zero.to_i64(), Some(0));
    assert_eq!(zero.to_u64(), Some(0));

    let eno = Symmetric32::of(-1);
    assert_eq!(eno.to_i64(), Some(-1));
    assert_eq!(eno.to_u64(), None);

    let max = Symmetric32::max_value();
    assert_eq!(max, Symmetric32::of(2147483647));
    assert_eq!(max.to_i64(), Some(2147483647));
    assert_eq!(max.to_u64(), Some(2147483647));

    let min = Symmetric32::min();
    assert_eq!(min, Symmetric32::of(-2147483647));
    assert_eq!(min.to_i64(), Some(-2147483647));
    assert_eq!(min.to_u64(), None);
    assert_eq!(min.is_null(), false);
    assert_eq!(min.is_not_null(), true);

    let null = Symmetric32::null();
    assert_eq!(null, Symmetric32::of(-2147483648));
    assert_eq!(null.to_i64(), None);
    assert_eq!(null.to_u64(), None);
    assert_eq!(null.is_null(), true);
    assert_eq!(null.is_not_null(), false);
}

#[test]
fn symmetric64() {
    let zero = Symmetric64::default();
    assert_eq!(zero, Symmetric64::of(0));
    assert_eq!(zero.to_i64(), Some(0));
    assert_eq!(zero.to_u64(), Some(0));

    let eno = Symmetric64::of(-1);
    assert_eq!(eno.to_i64(), Some(-1));
    assert_eq!(eno.to_u64(), None);

    let max = Symmetric64::max_value();
    assert_eq!(max, Symmetric64::of(9223372036854775807));
    assert_eq!(max.to_i64(), Some(9223372036854775807));
    assert_eq!(max.to_u64(), Some(9223372036854775807));

    let min = Symmetric64::min();
    assert_eq!(min, Symmetric64::of(-9223372036854775807));
    assert_eq!(min.to_i64(), Some(-9223372036854775807));
    assert_eq!(min.to_u64(), None);
    assert_eq!(min.is_null(), false);
    assert_eq!(min.is_not_null(), true);

    let null = Symmetric64::null();
    assert_eq!(null, Symmetric64::of(-9223372036854775808));
    assert_eq!(null.to_i64(), None);
    assert_eq!(null.to_u64(), None);
    assert_eq!(null.is_null(), true);
    assert_eq!(null.is_not_null(), false);
}

#[test]
fn symmetric_add() {
    assert_eq!(Symmetric64::of(51) + 23, Symmetric64::of(74));
    assert_eq!(
        Symmetric64::max_value() + Symmetric64::of(-1),
        Symmetric64::of(9223372036854775806)
    );
    assert_eq!(Symmetric64::max_value() + 23, Symmetric64::null());
    assert_eq!(
        Symmetric64::min() + Symmetric64::of(-23),
        Symmetric64::null()
    );
    assert_eq!(
        Symmetric64::min() + Symmetric64::of(1),
        Symmetric64::of(-9223372036854775806)
    );

    assert_eq!(Symmetric32::of(61) + 7, Symmetric32::of(68));
    assert_eq!(
        Symmetric32::max_value() + Symmetric32::of(-1),
        Symmetric32::of(2147483646)
    );
    assert_eq!(Symmetric32::max_value() + 1, Symmetric32::null());
    assert_eq!(Symmetric32::min() + Symmetric32::of(-1), Symmetric32::null());
    assert_eq!(
        Symmetric32::min() + Symmetric32::of(1),
        Symmetric32::of(-2147483646)
    );

    assert_eq!(Symmetric16::of(-3) + -4, Symmetric16::of(-7));
    assert_eq!(
        Symmetric16::max_value() + Symmetric16::of(-1),
        Symmetric16::of(32766)
    );
    assert_eq!(Symmetric16::max_value() + 1, Symmetric16::null());
    assert_eq!(Symmetric16::min() + Symmetric16::of(-1), Symmetric16::null());
    assert_eq!(
        Symmetric16::min() + Symmetric16::of(1),
        Symmetric16::of(-32766)
    );

    assert_eq!(Symmetric8::of(-3) + 4, Symmetric8::of(1));
    assert_eq!(
        Symmetric8::max_value() + Symmetric8::of(-1),
        Symmetric8::of(126)
    );
    assert_eq!(Symmetric8::max_value() + 1, Symmetric8::null());
    assert_eq!(Symmetric8::min() + Symmetric8::of(-1), Symmetric8::null());
    assert_eq!(Symmetric8::min() + Symmetric8::of(1), Symmetric8::of(-126));
}

#[test]
fn symmetric_add_assign() {
    let mut sixty_four = Symmetric64::null();
    sixty_four = sixty_four + 123;
    assert_eq!(sixty_four.is_null(), true);

    let mut eight = Symmetric8::default();
    eight = eight + 123;
    assert_eq!(eight, Symmetric8::of(123));
    eight = eight + Symmetric8::of(-3);
    assert_eq!(eight, Symmetric8::of(120));
    eight = eight + Symmetric8::null();
    assert_eq!(eight, Symmetric8::null());

    let mut thirty_two = Symmetric32::max_value();
    thirty_two = thirty_two + 1;
    assert_eq!(thirty_two, Symmetric32::null());

    let mut sixteen = Symmetric16::min();
    sixteen = sixteen + Symmetric16::of(-1);
    assert_eq!(sixteen, Symmetric16::null());
}

#[test]
fn symmetric_sub() {
    assert_eq!(Symmetric64::of(51) - 23, Symmetric64::of(28));
    assert_eq!(
        Symmetric64::max_value() - 1,
        Symmetric64::of(9223372036854775806)
    );
    assert_eq!(
        Symmetric64::max_value() - Symmetric64::of(-1),
        Symmetric64::null()
    );
    assert_eq!(Symmetric64::min() - 7, Symmetric64::null());
    assert_eq!(
        Symmetric64::min() - Symmetric64::of(-1),
        Symmetric64::of(-9223372036854775806)
    );

    assert_eq!(Symmetric32::of(61) - 7, Symmetric32::of(54));
    assert_eq!(Symmetric32::max_value() - 1, Symmetric32::of(2147483646));
    assert_eq!(
        Symmetric32::max_value() - Symmetric32::of(-1),
        Symmetric32::null()
    );
    assert_eq!(Symmetric32::min() - 1, Symmetric32::null());
    assert_eq!(
        Symmetric32::min() - Symmetric32::of(-1),
        Symmetric32::of(-2147483646)
    );

    assert_eq!(Symmetric16::of(-3) - 4, Symmetric16::of(-7));
    assert_eq!(Symmetric16::max_value() - 1, Symmetric16::of(32766));
    assert_eq!(
        Symmetric16::max_value() - Symmetric16::of(-1),
        Symmetric16::null()
    );
    assert_eq!(Symmetric16::min() - 1, Symmetric16::null());
    assert_eq!(
        Symmetric16::min() - Symmetric16::of(-1),
        Symmetric16::of(-32766)
    );

    assert_eq!(Symmetric8::of(-3) - 4, Symmetric8::of(-7));
    assert_eq!(Symmetric8::max_value() - 1, Symmetric8::of(126));
    assert_eq!(
        Symmetric8::max_value() - Symmetric8::of(-17),
        Symmetric8::null()
    );
    assert_eq!(Symmetric8::min() - 17, Symmetric8::null());
    assert_eq!(Symmetric8::min() - Symmetric8::of(-1), Symmetric8::of(-126));
}

#[test]
fn symmetric_sub_assign() {
    let mut sixty_four = Symmetric64::null();
    sixty_four = sixty_four - 123;
    assert_eq!(sixty_four.is_null(), true);

    let mut eight = Symmetric8::default();
    eight = eight - 123;
    assert_eq!(eight, Symmetric8::of(-123));
    eight = eight - Symmetric8::of(-3);
    assert_eq!(eight, Symmetric8::of(-120));
    eight = eight - Symmetric8::null();
    assert_eq!(eight, Symmetric8::null());

    let mut thirty_two = Symmetric32::min();
    thirty_two = thirty_two - 1;
    assert_eq!(thirty_two, Symmetric32::null());

    let mut sixteen = Symmetric16::max_value();
    sixteen = sixteen - Symmetric16::of(-1);
    assert_eq!(sixteen, Symmetric16::null());
}

#[test]
fn negate() {
    assert_eq!(-Symmetric64::null(), Symmetric64::null());
    assert_eq!(-Symmetric64::of(300), Symmetric64::of(-300));

    assert_eq!(-Symmetric32::null(), Symmetric32::null());
    assert_eq!(-Symmetric32::of(-3000), Symmetric32::of(3000));

    assert_eq!(-Symmetric16::null(), Symmetric16::null());
    assert_eq!(-Symmetric16::of(30000), Symmetric16::of(-30000));

    assert_eq!(-Symmetric8::null(), Symmetric8::null());
    assert_eq!(-Symmetric8::of(3), Symmetric8::of(-3));
}
