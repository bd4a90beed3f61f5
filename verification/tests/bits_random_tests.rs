use num_bigint::BigUint;
use rust_hdl::hdl_core::bits::{bit_cast, Bits};

fn random_bits<const N: usize>() -> Bits<N> {
    let mut x = Bits::<N>::default();
    for bit in 0..N {
        if rand::random::<bool>() {
            x = x.replace_bit(bit, true);
        }
    }
    x
}

fn big<const N: usize>(x: Bits<N>) -> BigUint {
    let mut z = BigUint::default();
    for i in 0..N {
        if x.get_bit(i) {
            z.set_bit(i as u64, true);
        }
    }
    z
}

fn mask(n: usize) -> BigUint {
    (BigUint::from(1u32) << n) - BigUint::from(1u32)
}

fn add_case<const N: usize>() {
    for _iters in 0..10 {
        let y: Bits<N> = random_bits();
        let z: Bits<N> = random_bits();
        let y1 = big(y);
        let z1 = big(z);
        let expected = (y1 + z1) & mask(N);
        assert_eq!(big(y + z), expected);
    }
}

#[test]
fn test_add() {
    add_case::<1>();
    add_case::<2>();
    add_case::<3>();
    add_case::<4>();
    add_case::<5>();
    add_case::<6>();
    add_case::<7>();
    add_case::<8>();
    add_case::<9>();
    add_case::<10>();
    add_case::<11>();
    add_case::<12>();
    add_case::<13>();
    add_case::<14>();
    add_case::<15>();
    add_case::<16>();
    add_case::<17>();
    add_case::<18>();
    add_case::<19>();
    add_case::<20>();
    add_case::<21>();
    add_case::<22>();
    add_case::<23>();
    add_case::<24>();
    add_case::<25>();
    add_case::<26>();
    add_case::<27>();
    add_case::<28>();
    add_case::<29>();
    add_case::<30>();
    add_case::<31>();
    add_case::<32>();
    add_case::<33>();
    add_case::<34>();
    add_case::<35>();
    add_case::<36>();
    add_case::<37>();
    add_case::<38>();
    add_case::<39>();
    add_case::<40>();
    add_case::<41>();
    add_case::<42>();
    add_case::<43>();
    add_case::<44>();
    add_case::<45>();
    add_case::<46>();
    add_case::<47>();
    add_case::<48>();
    add_case::<49>();
    add_case::<50>();
    add_case::<51>();
    add_case::<52>();
    add_case::<53>();
    add_case::<54>();
    add_case::<55>();
    add_case::<56>();
    add_case::<57>();
    add_case::<58>();
    add_case::<59>();
    add_case::<60>();
    add_case::<61>();
    add_case::<62>();
    add_case::<63>();
    add_case::<64>();
    add_case::<65>();
    add_case::<66>();
    add_case::<67>();
    add_case::<68>();
    add_case::<69>();
    add_case::<70>();
    add_case::<71>();
    add_case::<72>();
    add_case::<73>();
    add_case::<74>();
    add_case::<75>();
    add_case::<76>();
    add_case::<77>();
    add_case::<78>();
    add_case::<79>();
    add_case::<80>();
    add_case::<81>();
    add_case::<82>();
    add_case::<83>();
    add_case::<84>();
    add_case::<85>();
    add_case::<86>();
    add_case::<87>();
    add_case::<88>();
    add_case::<89>();
    add_case::<90>();
    add_case::<91>();
    add_case::<92>();
    add_case::<93>();
    add_case::<94>();
    add_case::<95>();
    add_case::<96>();
    add_case::<97>();
    add_case::<98>();
    add_case::<99>();
    add_case::<100>();
    add_case::<101>();
    add_case::<102>();
    add_case::<103>();
    add_case::<104>();
    add_case::<105>();
    add_case::<106>();
    add_case::<107>();
    add_case::<108>();
    add_case::<109>();
    add_case::<110>();
    add_case::<111>();
    add_case::<112>();
    add_case::<113>();
    add_case::<114>();
    add_case::<115>();
    add_case::<116>();
    add_case::<117>();
    add_case::<118>();
    add_case::<119>();
    add_case::<120>();
    add_case::<121>();
    add_case::<122>();
    add_case::<123>();
    add_case::<124>();
    add_case::<125>();
    add_case::<126>();
    add_case::<127>();
    add_case::<128>();
    add_case::<129>();
    add_case::<130>();
    add_case::<131>();
    add_case::<132>();
    add_case::<133>();
    add_case::<134>();
    add_case::<135>();
    add_case::<136>();
    add_case::<137>();
    add_case::<138>();
    add_case::<139>();
    add_case::<140>();
    add_case::<141>();
    add_case::<142>();
    add_case::<143>();
    add_case::<144>();
    add_case::<145>();
    add_case::<146>();
    add_case::<147>();
    add_case::<148>();
    add_case::<149>();
}

fn sub_case<const N: usize>() {
    for _iters in 0..10 {
        let y: Bits<N> = random_bits();
        let z: Bits<N> = random_bits();
        let y1 = big(y);
        let z1 = big(z);
        let expected = if z1 <= y1 { y1 - z1 } else { mask(N) + BigUint::from(1u32) + y1 - z1 };
        assert_eq!(big(y - z), expected);
    }
}

#[test]
fn test_sub() {
    sub_case::<1>();
    sub_case::<2>();
    sub_case::<3>();
    sub_case::<4>();
    sub_case::<5>();
    sub_case::<6>();
    sub_case::<7>();
    sub_case::<8>();
    sub_case::<9>();
    sub_case::<10>();
    sub_case::<11>();
    sub_case::<12>();
    sub_case::<13>();
    sub_case::<14>();
    sub_case::<15>();
    sub_case::<16>();
    sub_case::<17>();
    sub_case::<18>();
    sub_case::<19>();
    sub_case::<20>();
    sub_case::<21>();
    sub_case::<22>();
    sub_case::<23>();
    sub_case::<24>();
    sub_case::<25>();
    sub_case::<26>();
    sub_case::<27>();
    sub_case::<28>();
    sub_case::<29>();
    sub_case::<30>();
    sub_case::<31>();
    sub_case::<32>();
    sub_case::<33>();
    sub_case::<34>();
    sub_case::<35>();
    sub_case::<36>();
    sub_case::<37>();
    sub_case::<38>();
    sub_case::<39>();
    sub_case::<40>();
    sub_case::<41>();
    sub_case::<42>();
    sub_case::<43>();
    sub_case::<44>();
    sub_case::<45>();
    sub_case::<46>();
    sub_case::<47>();
    sub_case::<48>();
    sub_case::<49>();
    sub_case::<50>();
    sub_case::<51>();
    sub_case::<52>();
    sub_case::<53>();
    sub_case::<54>();
    sub_case::<55>();
    sub_case::<56>();
    sub_case::<57>();
    sub_case::<58>();
    sub_case::<59>();
    sub_case::<60>();
    sub_case::<61>();
    sub_case::<62>();
    sub_case::<63>();
    sub_case::<64>();
    sub_case::<65>();
    sub_case::<66>();
    sub_case::<67>();
    sub_case::<68>();
    sub_case::<69>();
    sub_case::<70>();
    sub_case::<71>();
    sub_case::<72>();
    sub_case::<73>();
    sub_case::<74>();
    sub_case::<75>();
    sub_case::<76>();
    sub_case::<77>();
    sub_case::<78>();
    sub_case::<79>();
    sub_case::<80>();
    sub_case::<81>();
    sub_case::<82>();
    sub_case::<83>();
    sub_case::<84>();
    sub_case::<85>();
    sub_case::<86>();
    sub_case::<87>();
    sub_case::<88>();
    sub_case::<89>();
    sub_case::<90>();
    sub_case::<91>();
    sub_case::<92>();
    sub_case::<93>();
    sub_case::<94>();
    sub_case::<95>();
    sub_case::<96>();
    sub_case::<97>();
    sub_case::<98>();
    sub_case::<99>();
    sub_case::<100>();
    sub_case::<101>();
    sub_case::<102>();
    sub_case::<103>();
    sub_case::<104>();
    sub_case::<105>();
    sub_case::<106>();
    sub_case::<107>();
    sub_case::<108>();
    sub_case::<109>();
    sub_case::<110>();
    sub_case::<111>();
    sub_case::<112>();
    sub_case::<113>();
    sub_case::<114>();
    sub_case::<115>();
    sub_case::<116>();
    sub_case::<117>();
    sub_case::<118>();
    sub_case::<119>();
    sub_case::<120>();
    sub_case::<121>();
    sub_case::<122>();
    sub_case::<123>();
    sub_case::<124>();
    sub_case::<125>();
    sub_case::<126>();
    sub_case::<127>();
    sub_case::<128>();
    sub_case::<129>();
    sub_case::<130>();
    sub_case::<131>();
    sub_case::<132>();
    sub_case::<133>();
    sub_case::<134>();
    sub_case::<135>();
    sub_case::<136>();
    sub_case::<137>();
    sub_case::<138>();
    sub_case::<139>();
    sub_case::<140>();
    sub_case::<141>();
    sub_case::<142>();
    sub_case::<143>();
    sub_case::<144>();
    sub_case::<145>();
    sub_case::<146>();
    sub_case::<147>();
    sub_case::<148>();
    sub_case::<149>();
}

fn bitor_case<const N: usize>() {
    for _iters in 0..10 {
        let y: Bits<N> = random_bits();
        let z: Bits<N> = random_bits();
        let y1 = big(y);
        let z1 = big(z);
        let expected = (y1 | z1) & mask(N);
        assert_eq!(big(y | z), expected);
    }
}

#[test]
fn test_bitor() {
    bitor_case::<1>();
    bitor_case::<2>();
    bitor_case::<3>();
    bitor_case::<4>();
    bitor_case::<5>();
    bitor_case::<6>();
    bitor_case::<7>();
    bitor_case::<8>();
    bitor_case::<9>();
    bitor_case::<10>();
    bitor_case::<11>();
    bitor_case::<12>();
    bitor_case::<13>();
    bitor_case::<14>();
    bitor_case::<15>();
    bitor_case::<16>();
    bitor_case::<17>();
    bitor_case::<18>();
    bitor_case::<19>();
    bitor_case::<20>();
    bitor_case::<21>();
    bitor_case::<22>();
    bitor_case::<23>();
    bitor_case::<24>();
    bitor_case::<25>();
    bitor_case::<26>();
    bitor_case::<27>();
    bitor_case::<28>();
    bitor_case::<29>();
    bitor_case::<30>();
    bitor_case::<31>();
    bitor_case::<32>();
    bitor_case::<33>();
    bitor_case::<34>();
    bitor_case::<35>();
    bitor_case::<36>();
    bitor_case::<37>();
    bitor_case::<38>();
    bitor_case::<39>();
    bitor_case::<40>();
    bitor_case::<41>();
    bitor_case::<42>();
    bitor_case::<43>();
    bitor_case::<44>();
    bitor_case::<45>();
    bitor_case::<46>();
    bitor_case::<47>();
    bitor_case::<48>();
    bitor_case::<49>();
    bitor_case::<50>();
    bitor_case::<51>();
    bitor_case::<52>();
    bitor_case::<53>();
    bitor_case::<54>();
    bitor_case::<55>();
    bitor_case::<56>();
    bitor_case::<57>();
    bitor_case::<58>();
    bitor_case::<59>();
    bitor_case::<60>();
    bitor_case::<61>();
    bitor_case::<62>();
    bitor_case::<63>();
    bitor_case::<64>();
    bitor_case::<65>();
    bitor_case::<66>();
    bitor_case::<67>();
    bitor_case::<68>();
    bitor_case::<69>();
    bitor_case::<70>();
    bitor_case::<71>();
    bitor_case::<72>();
    bitor_case::<73>();
    bitor_case::<74>();
    bitor_case::<75>();
    bitor_case::<76>();
    bitor_case::<77>();
    bitor_case::<78>();
    bitor_case::<79>();
    bitor_case::<80>();
    bitor_case::<81>();
    bitor_case::<82>();
    bitor_case::<83>();
    bitor_case::<84>();
    bitor_case::<85>();
    bitor_case::<86>();
    bitor_case::<87>();
    bitor_case::<88>();
    bitor_case::<89>();
    bitor_case::<90>();
    bitor_case::<91>();
    bitor_case::<92>();
    bitor_case::<93>();
    bitor_case::<94>();
    bitor_case::<95>();
    bitor_case::<96>();
    bitor_case::<97>();
    bitor_case::<98>();
    bitor_case::<99>();
    bitor_case::<100>();
    bitor_case::<101>();
    bitor_case::<102>();
    bitor_case::<103>();
    bitor_case::<104>();
    bitor_case::<105>();
    bitor_case::<106>();
    bitor_case::<107>();
    bitor_case::<108>();
    bitor_case::<109>();
    bitor_case::<110>();
    bitor_case::<111>();
    bitor_case::<112>();
    bitor_case::<113>();
    bitor_case::<114>();
    bitor_case::<115>();
    bitor_case::<116>();
    bitor_case::<117>();
    bitor_case::<118>();
    bitor_case::<119>();
    bitor_case::<120>();
    bitor_case::<121>();
    bitor_case::<122>();
    bitor_case::<123>();
    bitor_case::<124>();
    bitor_case::<125>();
    bitor_case::<126>();
    bitor_case::<127>();
    bitor_case::<128>();
    bitor_case::<129>();
    bitor_case::<130>();
    bitor_case::<131>();
    bitor_case::<132>();
    bitor_case::<133>();
    bitor_case::<134>();
    bitor_case::<135>();
    bitor_case::<136>();
    bitor_case::<137>();
    bitor_case::<138>();
    bitor_case::<139>();
    bitor_case::<140>();
    bitor_case::<141>();
    bitor_case::<142>();
    bitor_case::<143>();
    bitor_case::<144>();
    bitor_case::<145>();
    bitor_case::<146>();
    bitor_case::<147>();
    bitor_case::<148>();
    bitor_case::<149>();
}

fn bitand_case<const N: usize>() {
    for _iters in 0..10 {
        let y: Bits<N> = random_bits();
        let z: Bits<N> = random_bits();
        let y1 = big(y);
        let z1 = big(z);
        let expected = (y1 & z1) & mask(N);
        assert_eq!(big(y & z), expected);
    }
}

#[test]
fn test_bitand() {
    bitand_case::<1>();
    bitand_case::<2>();
    bitand_case::<3>();
    bitand_case::<4>();
    bitand_case::<5>();
    bitand_case::<6>();
    bitand_case::<7>();
    bitand_case::<8>();
    bitand_case::<9>();
    bitand_case::<10>();
    bitand_case::<11>();
    bitand_case::<12>();
    bitand_case::<13>();
    bitand_case::<14>();
    bitand_case::<15>();
    bitand_case::<16>();
    bitand_case::<17>();
    bitand_case::<18>();
    bitand_case::<19>();
    bitand_case::<20>();
    bitand_case::<21>();
    bitand_case::<22>();
    bitand_case::<23>();
    bitand_case::<24>();
    bitand_case::<25>();
    bitand_case::<26>();
    bitand_case::<27>();
    bitand_case::<28>();
    bitand_case::<29>();
    bitand_case::<30>();
    bitand_case::<31>();
    bitand_case::<32>();
    bitand_case::<33>();
    bitand_case::<34>();
    bitand_case::<35>();
    bitand_case::<36>();
    bitand_case::<37>();
    bitand_case::<38>();
    bitand_case::<39>();
    bitand_case::<40>();
    bitand_case::<41>();
    bitand_case::<42>();
    bitand_case::<43>();
    bitand_case::<44>();
    bitand_case::<45>();
    bitand_case::<46>();
    bitand_case::<47>();
    bitand_case::<48>();
    bitand_case::<49>();
    bitand_case::<50>();
    bitand_case::<51>();
    bitand_case::<52>();
    bitand_case::<53>();
    bitand_case::<54>();
    bitand_case::<55>();
    bitand_case::<56>();
    bitand_case::<57>();
    bitand_case::<58>();
    bitand_case::<59>();
    bitand_case::<60>();
    bitand_case::<61>();
    bitand_case::<62>();
    bitand_case::<63>();
    bitand_case::<64>();
    bitand_case::<65>();
    bitand_case::<66>();
    bitand_case::<67>();
    bitand_case::<68>();
    bitand_case::<69>();
    bitand_case::<70>();
    bitand_case::<71>();
    bitand_case::<72>();
    bitand_case::<73>();
    bitand_case::<74>();
    bitand_case::<75>();
    bitand_case::<76>();
    bitand_case::<77>();
    bitand_case::<78>();
    bitand_case::<79>();
    bitand_case::<80>();
    bitand_case::<81>();
    bitand_case::<82>();
    bitand_case::<83>();
    bitand_case::<84>();
    bitand_case::<85>();
    bitand_case::<86>();
    bitand_case::<87>();
    bitand_case::<88>();
    bitand_case::<89>();
    bitand_case::<90>();
    bitand_case::<91>();
    bitand_case::<92>();
    bitand_case::<93>();
    bitand_case::<94>();
    bitand_case::<95>();
    bitand_case::<96>();
    bitand_case::<97>();
    bitand_case::<98>();
    bitand_case::<99>();
    bitand_case::<100>();
    bitand_case::<101>();
    bitand_case::<102>();
    bitand_case::<103>();
    bitand_case::<104>();
    bitand_case::<105>();
    bitand_case::<106>();
    bitand_case::<107>();
    bitand_case::<108>();
    bitand_case::<109>();
    bitand_case::<110>();
    bitand_case::<111>();
    bitand_case::<112>();
    bitand_case::<113>();
    bitand_case::<114>();
    bitand_case::<115>();
    bitand_case::<116>();
    bitand_case::<117>();
    bitand_case::<118>();
    bitand_case::<119>();
    bitand_case::<120>();
    bitand_case::<121>();
    bitand_case::<122>();
    bitand_case::<123>();
    bitand_case::<124>();
    bitand_case::<125>();
    bitand_case::<126>();
    bitand_case::<127>();
    bitand_case::<128>();
    bitand_case::<129>();
    bitand_case::<130>();
    bitand_case::<131>();
    bitand_case::<132>();
    bitand_case::<133>();
    bitand_case::<134>();
    bitand_case::<135>();
    bitand_case::<136>();
    bitand_case::<137>();
    bitand_case::<138>();
    bitand_case::<139>();
    bitand_case::<140>();
    bitand_case::<141>();
    bitand_case::<142>();
    bitand_case::<143>();
    bitand_case::<144>();
    bitand_case::<145>();
    bitand_case::<146>();
    bitand_case::<147>();
    bitand_case::<148>();
    bitand_case::<149>();
}

fn bitxor_case<const N: usize>() {
    for _iters in 0..10 {
        let y: Bits<N> = random_bits();
        let z: Bits<N> = random_bits();
        let y1 = big(y);
        let z1 = big(z);
        let expected = (y1 ^ z1) & mask(N);
        assert_eq!(big(y ^ z), expected);
    }
}

#[test]
fn test_bitxor() {
    bitxor_case::<1>();
    bitxor_case::<2>();
    bitxor_case::<3>();
    bitxor_case::<4>();
    bitxor_case::<5>();
    bitxor_case::<6>();
    bitxor_case::<7>();
    bitxor_case::<8>();
    bitxor_case::<9>();
    bitxor_case::<10>();
    bitxor_case::<11>();
    bitxor_case::<12>();
    bitxor_case::<13>();
    bitxor_case::<14>();
    bitxor_case::<15>();
    bitxor_case::<16>();
    bitxor_case::<17>();
    bitxor_case::<18>();
    bitxor_case::<19>();
    bitxor_case::<20>();
    bitxor_case::<21>();
    bitxor_case::<22>();
    bitxor_case::<23>();
    bitxor_case::<24>();
    bitxor_case::<25>();
    bitxor_case::<26>();
    bitxor_case::<27>();
    bitxor_case::<28>();
    bitxor_case::<29>();
    bitxor_case::<30>();
    bitxor_case::<31>();
    bitxor_case::<32>();
    bitxor_case::<33>();
    bitxor_case::<34>();
    bitxor_case::<35>();
    bitxor_case::<36>();
    bitxor_case::<37>();
    bitxor_case::<38>();
    bitxor_case::<39>();
    bitxor_case::<40>();
    bitxor_case::<41>();
    bitxor_case::<42>();
    bitxor_case::<43>();
    bitxor_case::<44>();
    bitxor_case::<45>();
    bitxor_case::<46>();
    bitxor_case::<47>();
    bitxor_case::<48>();
    bitxor_case::<49>();
    bitxor_case::<50>();
    bitxor_case::<51>();
    bitxor_case::<52>();
    bitxor_case::<53>();
    bitxor_case::<54>();
    bitxor_case::<55>();
    bitxor_case::<56>();
    bitxor_case::<57>();
    bitxor_case::<58>();
    bitxor_case::<59>();
    bitxor_case::<60>();
    bitxor_case::<61>();
    bitxor_case::<62>();
    bitxor_case::<63>();
    bitxor_case::<64>();
    bitxor_case::<65>();
    bitxor_case::<66>();
    bitxor_case::<67>();
    bitxor_case::<68>();
    bitxor_case::<69>();
    bitxor_case::<70>();
    bitxor_case::<71>();
    bitxor_case::<72>();
    bitxor_case::<73>();
    bitxor_case::<74>();
    bitxor_case::<75>();
    bitxor_case::<76>();
    bitxor_case::<77>();
    bitxor_case::<78>();
    bitxor_case::<79>();
    bitxor_case::<80>();
    bitxor_case::<81>();
    bitxor_case::<82>();
    bitxor_case::<83>();
    bitxor_case::<84>();
    bitxor_case::<85>();
    bitxor_case::<86>();
    bitxor_case::<87>();
    bitxor_case::<88>();
    bitxor_case::<89>();
    bitxor_case::<90>();
    bitxor_case::<91>();
    bitxor_case::<92>();
    bitxor_case::<93>();
    bitxor_case::<94>();
    bitxor_case::<95>();
    bitxor_case::<96>();
    bitxor_case::<97>();
    bitxor_case::<98>();
    bitxor_case::<99>();
    bitxor_case::<100>();
    bitxor_case::<101>();
    bitxor_case::<102>();
    bitxor_case::<103>();
    bitxor_case::<104>();
    bitxor_case::<105>();
    bitxor_case::<106>();
    bitxor_case::<107>();
    bitxor_case::<108>();
    bitxor_case::<109>();
    bitxor_case::<110>();
    bitxor_case::<111>();
    bitxor_case::<112>();
    bitxor_case::<113>();
    bitxor_case::<114>();
    bitxor_case::<115>();
    bitxor_case::<116>();
    bitxor_case::<117>();
    bitxor_case::<118>();
    bitxor_case::<119>();
    bitxor_case::<120>();
    bitxor_case::<121>();
    bitxor_case::<122>();
    bitxor_case::<123>();
    bitxor_case::<124>();
    bitxor_case::<125>();
    bitxor_case::<126>();
    bitxor_case::<127>();
    bitxor_case::<128>();
    bitxor_case::<129>();
    bitxor_case::<130>();
    bitxor_case::<131>();
    bitxor_case::<132>();
    bitxor_case::<133>();
    bitxor_case::<134>();
    bitxor_case::<135>();
    bitxor_case::<136>();
    bitxor_case::<137>();
    bitxor_case::<138>();
    bitxor_case::<139>();
    bitxor_case::<140>();
    bitxor_case::<141>();
    bitxor_case::<142>();
    bitxor_case::<143>();
    bitxor_case::<144>();
    bitxor_case::<145>();
    bitxor_case::<146>();
    bitxor_case::<147>();
    bitxor_case::<148>();
    bitxor_case::<149>();
}

fn not_case<const N: usize>() {
    for _iters in 0..10 {
        let y: Bits<N> = random_bits();
        let z: Bits<N> = random_bits();
        let y1 = big(y);
        let z1 = big(z);
        let expected = y1 ^ mask(N);
        assert_eq!(big(!y), expected);
    }
}

#[test]
fn test_not() {
    not_case::<1>();
    not_case::<2>();
    not_case::<3>();
    not_case::<4>();
    not_case::<5>();
    not_case::<6>();
    not_case::<7>();
    not_case::<8>();
    not_case::<9>();
    not_case::<10>();
    not_case::<11>();
    not_case::<12>();
    not_case::<13>();
    not_case::<14>();
    not_case::<15>();
    not_case::<16>();
    not_case::<17>();
    not_case::<18>();
    not_case::<19>();
    not_case::<20>();
    not_case::<21>();
    not_case::<22>();
    not_case::<23>();
    not_case::<24>();
    not_case::<25>();
    not_case::<26>();
    not_case::<27>();
    not_case::<28>();
    not_case::<29>();
    not_case::<30>();
    not_case::<31>();
    not_case::<32>();
    not_case::<33>();
    not_case::<34>();
    not_case::<35>();
    not_case::<36>();
    not_case::<37>();
    not_case::<38>();
    not_case::<39>();
    not_case::<40>();
    not_case::<41>();
    not_case::<42>();
    not_case::<43>();
    not_case::<44>();
    not_case::<45>();
    not_case::<46>();
    not_case::<47>();
    not_case::<48>();
    not_case::<49>();
    not_case::<50>();
    not_case::<51>();
    not_case::<52>();
    not_case::<53>();
    not_case::<54>();
    not_case::<55>();
    not_case::<56>();
    not_case::<57>();
    not_case::<58>();
    not_case::<59>();
    not_case::<60>();
    not_case::<61>();
    not_case::<62>();
    not_case::<63>();
    not_case::<64>();
    not_case::<65>();
    not_case::<66>();
    not_case::<67>();
    not_case::<68>();
    not_case::<69>();
    not_case::<70>();
    not_case::<71>();
    not_case::<72>();
    not_case::<73>();
    not_case::<74>();
    not_case::<75>();
    not_case::<76>();
    not_case::<77>();
    not_case::<78>();
    not_case::<79>();
    not_case::<80>();
    not_case::<81>();
    not_case::<82>();
    not_case::<83>();
    not_case::<84>();
    not_case::<85>();
    not_case::<86>();
    not_case::<87>();
    not_case::<88>();
    not_case::<89>();
    not_case::<90>();
    not_case::<91>();
    not_case::<92>();
    not_case::<93>();
    not_case::<94>();
    not_case::<95>();
    not_case::<96>();
    not_case::<97>();
    not_case::<98>();
    not_case::<99>();
    not_case::<100>();
    not_case::<101>();
    not_case::<102>();
    not_case::<103>();
    not_case::<104>();
    not_case::<105>();
    not_case::<106>();
    not_case::<107>();
    not_case::<108>();
    not_case::<109>();
    not_case::<110>();
    not_case::<111>();
    not_case::<112>();
    not_case::<113>();
    not_case::<114>();
    not_case::<115>();
    not_case::<116>();
    not_case::<117>();
    not_case::<118>();
    not_case::<119>();
    not_case::<120>();
    not_case::<121>();
    not_case::<122>();
    not_case::<123>();
    not_case::<124>();
    not_case::<125>();
    not_case::<126>();
    not_case::<127>();
    not_case::<128>();
    not_case::<129>();
    not_case::<130>();
    not_case::<131>();
    not_case::<132>();
    not_case::<133>();
    not_case::<134>();
    not_case::<135>();
    not_case::<136>();
    not_case::<137>();
    not_case::<138>();
    not_case::<139>();
    not_case::<140>();
    not_case::<141>();
    not_case::<142>();
    not_case::<143>();
    not_case::<144>();
    not_case::<145>();
    not_case::<146>();
    not_case::<147>();
    not_case::<148>();
    not_case::<149>();
}

fn lt_case<const N: usize>() {
    for _iters in 0..10 {
        let y: Bits<N> = random_bits();
        let z: Bits<N> = random_bits();
        assert_eq!(y < z, big(y) < big(z));
    }
}

#[test]
fn test_lt() {
    lt_case::<1>();
    lt_case::<2>();
    lt_case::<3>();
    lt_case::<4>();
    lt_case::<5>();
    lt_case::<6>();
    lt_case::<7>();
    lt_case::<8>();
    lt_case::<9>();
    lt_case::<10>();
    lt_case::<11>();
    lt_case::<12>();
    lt_case::<13>();
    lt_case::<14>();
    lt_case::<15>();
    lt_case::<16>();
    lt_case::<17>();
    lt_case::<18>();
    lt_case::<19>();
    lt_case::<20>();
    lt_case::<21>();
    lt_case::<22>();
    lt_case::<23>();
    lt_case::<24>();
    lt_case::<25>();
    lt_case::<26>();
    lt_case::<27>();
    lt_case::<28>();
    lt_case::<29>();
    lt_case::<30>();
    lt_case::<31>();
    lt_case::<32>();
    lt_case::<33>();
    lt_case::<34>();
    lt_case::<35>();
    lt_case::<36>();
    lt_case::<37>();
    lt_case::<38>();
    lt_case::<39>();
    lt_case::<40>();
    lt_case::<41>();
    lt_case::<42>();
    lt_case::<43>();
    lt_case::<44>();
    lt_case::<45>();
    lt_case::<46>();
    lt_case::<47>();
    lt_case::<48>();
    lt_case::<49>();
    lt_case::<50>();
    lt_case::<51>();
    lt_case::<52>();
    lt_case::<53>();
    lt_case::<54>();
    lt_case::<55>();
    lt_case::<56>();
    lt_case::<57>();
    lt_case::<58>();
    lt_case::<59>();
    lt_case::<60>();
    lt_case::<61>();
    lt_case::<62>();
    lt_case::<63>();
    lt_case::<64>();
    lt_case::<65>();
    lt_case::<66>();
    lt_case::<67>();
    lt_case::<68>();
    lt_case::<69>();
    lt_case::<70>();
    lt_case::<71>();
    lt_case::<72>();
    lt_case::<73>();
    lt_case::<74>();
    lt_case::<75>();
    lt_case::<76>();
    lt_case::<77>();
    lt_case::<78>();
    lt_case::<79>();
    lt_case::<80>();
    lt_case::<81>();
    lt_case::<82>();
    lt_case::<83>();
    lt_case::<84>();
    lt_case::<85>();
    lt_case::<86>();
    lt_case::<87>();
    lt_case::<88>();
    lt_case::<89>();
    lt_case::<90>();
    lt_case::<91>();
    lt_case::<92>();
    lt_case::<93>();
    lt_case::<94>();
    lt_case::<95>();
    lt_case::<96>();
    lt_case::<97>();
    lt_case::<98>();
    lt_case::<99>();
    lt_case::<100>();
    lt_case::<101>();
    lt_case::<102>();
    lt_case::<103>();
    lt_case::<104>();
    lt_case::<105>();
    lt_case::<106>();
    lt_case::<107>();
    lt_case::<108>();
    lt_case::<109>();
    lt_case::<110>();
    lt_case::<111>();
    lt_case::<112>();
    lt_case::<113>();
    lt_case::<114>();
    lt_case::<115>();
    lt_case::<116>();
    lt_case::<117>();
    lt_case::<118>();
    lt_case::<119>();
    lt_case::<120>();
    lt_case::<121>();
    lt_case::<122>();
    lt_case::<123>();
    lt_case::<124>();
    lt_case::<125>();
    lt_case::<126>();
    lt_case::<127>();
    lt_case::<128>();
    lt_case::<129>();
    lt_case::<130>();
    lt_case::<131>();
    lt_case::<132>();
    lt_case::<133>();
    lt_case::<134>();
    lt_case::<135>();
    lt_case::<136>();
    lt_case::<137>();
    lt_case::<138>();
    lt_case::<139>();
    lt_case::<140>();
    lt_case::<141>();
    lt_case::<142>();
    lt_case::<143>();
    lt_case::<144>();
    lt_case::<145>();
    lt_case::<146>();
    lt_case::<147>();
    lt_case::<148>();
    lt_case::<149>();
    lt_case::<150>();
    lt_case::<151>();
    lt_case::<152>();
    lt_case::<153>();
    lt_case::<154>();
    lt_case::<155>();
    lt_case::<156>();
    lt_case::<157>();
    lt_case::<158>();
    lt_case::<159>();
    lt_case::<160>();
    lt_case::<161>();
    lt_case::<162>();
    lt_case::<163>();
    lt_case::<164>();
    lt_case::<165>();
    lt_case::<166>();
    lt_case::<167>();
    lt_case::<168>();
    lt_case::<169>();
    lt_case::<170>();
    lt_case::<171>();
    lt_case::<172>();
    lt_case::<173>();
    lt_case::<174>();
    lt_case::<175>();
    lt_case::<176>();
    lt_case::<177>();
    lt_case::<178>();
    lt_case::<179>();
    lt_case::<180>();
    lt_case::<181>();
    lt_case::<182>();
    lt_case::<183>();
    lt_case::<184>();
    lt_case::<185>();
    lt_case::<186>();
    lt_case::<187>();
    lt_case::<188>();
    lt_case::<189>();
    lt_case::<190>();
    lt_case::<191>();
    lt_case::<192>();
    lt_case::<193>();
    lt_case::<194>();
    lt_case::<195>();
    lt_case::<196>();
    lt_case::<197>();
    lt_case::<198>();
    lt_case::<199>();
    lt_case::<200>();
    lt_case::<201>();
    lt_case::<202>();
    lt_case::<203>();
    lt_case::<204>();
    lt_case::<205>();
    lt_case::<206>();
    lt_case::<207>();
    lt_case::<208>();
    lt_case::<209>();
    lt_case::<210>();
    lt_case::<211>();
    lt_case::<212>();
    lt_case::<213>();
    lt_case::<214>();
    lt_case::<215>();
    lt_case::<216>();
    lt_case::<217>();
    lt_case::<218>();
    lt_case::<219>();
    lt_case::<220>();
    lt_case::<221>();
    lt_case::<222>();
    lt_case::<223>();
    lt_case::<224>();
    lt_case::<225>();
    lt_case::<226>();
    lt_case::<227>();
    lt_case::<228>();
    lt_case::<229>();
    lt_case::<230>();
    lt_case::<231>();
    lt_case::<232>();
    lt_case::<233>();
    lt_case::<234>();
    lt_case::<235>();
    lt_case::<236>();
    lt_case::<237>();
    lt_case::<238>();
    lt_case::<239>();
    lt_case::<240>();
    lt_case::<241>();
    lt_case::<242>();
    lt_case::<243>();
    lt_case::<244>();
    lt_case::<245>();
    lt_case::<246>();
    lt_case::<247>();
    lt_case::<248>();
    lt_case::<249>();
    lt_case::<250>();
    lt_case::<251>();
    lt_case::<252>();
    lt_case::<253>();
    lt_case::<254>();
    lt_case::<255>();
}

fn le_case<const N: usize>() {
    for _iters in 0..10 {
        let y: Bits<N> = random_bits();
        let z: Bits<N> = random_bits();
        assert_eq!(y <= z, big(y) <= big(z));
    }
}

#[test]
fn test_le() {
    le_case::<1>();
    le_case::<2>();
    le_case::<3>();
    le_case::<4>();
    le_case::<5>();
    le_case::<6>();
    le_case::<7>();
    le_case::<8>();
    le_case::<9>();
    le_case::<10>();
    le_case::<11>();
    le_case::<12>();
    le_case::<13>();
    le_case::<14>();
    le_case::<15>();
    le_case::<16>();
    le_case::<17>();
    le_case::<18>();
    le_case::<19>();
    le_case::<20>();
    le_case::<21>();
    le_case::<22>();
    le_case::<23>();
    le_case::<24>();
    le_case::<25>();
    le_case::<26>();
    le_case::<27>();
    le_case::<28>();
    le_case::<29>();
    le_case::<30>();
    le_case::<31>();
    le_case::<32>();
    le_case::<33>();
    le_case::<34>();
    le_case::<35>();
    le_case::<36>();
    le_case::<37>();
    le_case::<38>();
    le_case::<39>();
    le_case::<40>();
    le_case::<41>();
    le_case::<42>();
    le_case::<43>();
    le_case::<44>();
    le_case::<45>();
    le_case::<46>();
    le_case::<47>();
    le_case::<48>();
    le_case::<49>();
    le_case::<50>();
    le_case::<51>();
    le_case::<52>();
    le_case::<53>();
    le_case::<54>();
    le_case::<55>();
    le_case::<56>();
    le_case::<57>();
    le_case::<58>();
    le_case::<59>();
    le_case::<60>();
    le_case::<61>();
    le_case::<62>();
    le_case::<63>();
    le_case::<64>();
    le_case::<65>();
    le_case::<66>();
    le_case::<67>();
    le_case::<68>();
    le_case::<69>();
    le_case::<70>();
    le_case::<71>();
    le_case::<72>();
    le_case::<73>();
    le_case::<74>();
    le_case::<75>();
    le_case::<76>();
    le_case::<77>();
    le_case::<78>();
    le_case::<79>();
    le_case::<80>();
    le_case::<81>();
    le_case::<82>();
    le_case::<83>();
    le_case::<84>();
    le_case::<85>();
    le_case::<86>();
    le_case::<87>();
    le_case::<88>();
    le_case::<89>();
    le_case::<90>();
    le_case::<91>();
    le_case::<92>();
    le_case::<93>();
    le_case::<94>();
    le_case::<95>();
    le_case::<96>();
    le_case::<97>();
    le_case::<98>();
    le_case::<99>();
    le_case::<100>();
    le_case::<101>();
    le_case::<102>();
    le_case::<103>();
    le_case::<104>();
    le_case::<105>();
    le_case::<106>();
    le_case::<107>();
    le_case::<108>();
    le_case::<109>();
    le_case::<110>();
    le_case::<111>();
    le_case::<112>();
    le_case::<113>();
    le_case::<114>();
    le_case::<115>();
    le_case::<116>();
    le_case::<117>();
    le_case::<118>();
    le_case::<119>();
    le_case::<120>();
    le_case::<121>();
    le_case::<122>();
    le_case::<123>();
    le_case::<124>();
    le_case::<125>();
    le_case::<126>();
    le_case::<127>();
    le_case::<128>();
    le_case::<129>();
    le_case::<130>();
    le_case::<131>();
    le_case::<132>();
    le_case::<133>();
    le_case::<134>();
    le_case::<135>();
    le_case::<136>();
    le_case::<137>();
    le_case::<138>();
    le_case::<139>();
    le_case::<140>();
    le_case::<141>();
    le_case::<142>();
    le_case::<143>();
    le_case::<144>();
    le_case::<145>();
    le_case::<146>();
    le_case::<147>();
    le_case::<148>();
    le_case::<149>();
    le_case::<150>();
    le_case::<151>();
    le_case::<152>();
    le_case::<153>();
    le_case::<154>();
    le_case::<155>();
    le_case::<156>();
    le_case::<157>();
    le_case::<158>();
    le_case::<159>();
    le_case::<160>();
    le_case::<161>();
    le_case::<162>();
    le_case::<163>();
    le_case::<164>();
    le_case::<165>();
    le_case::<166>();
    le_case::<167>();
    le_case::<168>();
    le_case::<169>();
    le_case::<170>();
    le_case::<171>();
    le_case::<172>();
    le_case::<173>();
    le_case::<174>();
    le_case::<175>();
    le_case::<176>();
    le_case::<177>();
    le_case::<178>();
    le_case::<179>();
    le_case::<180>();
    le_case::<181>();
    le_case::<182>();
    le_case::<183>();
    le_case::<184>();
    le_case::<185>();
    le_case::<186>();
    le_case::<187>();
    le_case::<188>();
    le_case::<189>();
    le_case::<190>();
    le_case::<191>();
    le_case::<192>();
    le_case::<193>();
    le_case::<194>();
    le_case::<195>();
    le_case::<196>();
    le_case::<197>();
    le_case::<198>();
    le_case::<199>();
    le_case::<200>();
    le_case::<201>();
    le_case::<202>();
    le_case::<203>();
    le_case::<204>();
    le_case::<205>();
    le_case::<206>();
    le_case::<207>();
    le_case::<208>();
    le_case::<209>();
    le_case::<210>();
    le_case::<211>();
    le_case::<212>();
    le_case::<213>();
    le_case::<214>();
    le_case::<215>();
    le_case::<216>();
    le_case::<217>();
    le_case::<218>();
    le_case::<219>();
    le_case::<220>();
    le_case::<221>();
    le_case::<222>();
    le_case::<223>();
    le_case::<224>();
    le_case::<225>();
    le_case::<226>();
    le_case::<227>();
    le_case::<228>();
    le_case::<229>();
    le_case::<230>();
    le_case::<231>();
    le_case::<232>();
    le_case::<233>();
    le_case::<234>();
    le_case::<235>();
    le_case::<236>();
    le_case::<237>();
    le_case::<238>();
    le_case::<239>();
    le_case::<240>();
    le_case::<241>();
    le_case::<242>();
    le_case::<243>();
    le_case::<244>();
    le_case::<245>();
    le_case::<246>();
    le_case::<247>();
    le_case::<248>();
    le_case::<249>();
    le_case::<250>();
    le_case::<251>();
    le_case::<252>();
    le_case::<253>();
    le_case::<254>();
    le_case::<255>();
}

fn eq_case<const N: usize>() {
    for _iters in 0..10 {
        let y: Bits<N> = random_bits();
        let z: Bits<N> = random_bits();
        assert_eq!(y == z, big(y) == big(z));
    }
}

#[test]
fn test_eq() {
    eq_case::<1>();
    eq_case::<2>();
    eq_case::<3>();
    eq_case::<4>();
    eq_case::<5>();
    eq_case::<6>();
    eq_case::<7>();
    eq_case::<8>();
    eq_case::<9>();
    eq_case::<10>();
    eq_case::<11>();
    eq_case::<12>();
    eq_case::<13>();
    eq_case::<14>();
    eq_case::<15>();
    eq_case::<16>();
    eq_case::<17>();
    eq_case::<18>();
    eq_case::<19>();
    eq_case::<20>();
    eq_case::<21>();
    eq_case::<22>();
    eq_case::<23>();
    eq_case::<24>();
    eq_case::<25>();
    eq_case::<26>();
    eq_case::<27>();
    eq_case::<28>();
    eq_case::<29>();
    eq_case::<30>();
    eq_case::<31>();
    eq_case::<32>();
    eq_case::<33>();
    eq_case::<34>();
    eq_case::<35>();
    eq_case::<36>();
    eq_case::<37>();
    eq_case::<38>();
    eq_case::<39>();
    eq_case::<40>();
    eq_case::<41>();
    eq_case::<42>();
    eq_case::<43>();
    eq_case::<44>();
    eq_case::<45>();
    eq_case::<46>();
    eq_case::<47>();
    eq_case::<48>();
    eq_case::<49>();
    eq_case::<50>();
    eq_case::<51>();
    eq_case::<52>();
    eq_case::<53>();
    eq_case::<54>();
    eq_case::<55>();
    eq_case::<56>();
    eq_case::<57>();
    eq_case::<58>();
    eq_case::<59>();
    eq_case::<60>();
    eq_case::<61>();
    eq_case::<62>();
    eq_case::<63>();
    eq_case::<64>();
    eq_case::<65>();
    eq_case::<66>();
    eq_case::<67>();
    eq_case::<68>();
    eq_case::<69>();
    eq_case::<70>();
    eq_case::<71>();
    eq_case::<72>();
    eq_case::<73>();
    eq_case::<74>();
    eq_case::<75>();
    eq_case::<76>();
    eq_case::<77>();
    eq_case::<78>();
    eq_case::<79>();
    eq_case::<80>();
    eq_case::<81>();
    eq_case::<82>();
    eq_case::<83>();
    eq_case::<84>();
    eq_case::<85>();
    eq_case::<86>();
    eq_case::<87>();
    eq_case::<88>();
    eq_case::<89>();
    eq_case::<90>();
    eq_case::<91>();
    eq_case::<92>();
    eq_case::<93>();
    eq_case::<94>();
    eq_case::<95>();
    eq_case::<96>();
    eq_case::<97>();
    eq_case::<98>();
    eq_case::<99>();
    eq_case::<100>();
    eq_case::<101>();
    eq_case::<102>();
    eq_case::<103>();
    eq_case::<104>();
    eq_case::<105>();
    eq_case::<106>();
    eq_case::<107>();
    eq_case::<108>();
    eq_case::<109>();
    eq_case::<110>();
    eq_case::<111>();
    eq_case::<112>();
    eq_case::<113>();
    eq_case::<114>();
    eq_case::<115>();
    eq_case::<116>();
    eq_case::<117>();
    eq_case::<118>();
    eq_case::<119>();
    eq_case::<120>();
    eq_case::<121>();
    eq_case::<122>();
    eq_case::<123>();
    eq_case::<124>();
    eq_case::<125>();
    eq_case::<126>();
    eq_case::<127>();
    eq_case::<128>();
    eq_case::<129>();
    eq_case::<130>();
    eq_case::<131>();
    eq_case::<132>();
    eq_case::<133>();
    eq_case::<134>();
    eq_case::<135>();
    eq_case::<136>();
    eq_case::<137>();
    eq_case::<138>();
    eq_case::<139>();
    eq_case::<140>();
    eq_case::<141>();
    eq_case::<142>();
    eq_case::<143>();
    eq_case::<144>();
    eq_case::<145>();
    eq_case::<146>();
    eq_case::<147>();
    eq_case::<148>();
    eq_case::<149>();
    eq_case::<150>();
    eq_case::<151>();
    eq_case::<152>();
    eq_case::<153>();
    eq_case::<154>();
    eq_case::<155>();
    eq_case::<156>();
    eq_case::<157>();
    eq_case::<158>();
    eq_case::<159>();
    eq_case::<160>();
    eq_case::<161>();
    eq_case::<162>();
    eq_case::<163>();
    eq_case::<164>();
    eq_case::<165>();
    eq_case::<166>();
    eq_case::<167>();
    eq_case::<168>();
    eq_case::<169>();
    eq_case::<170>();
    eq_case::<171>();
    eq_case::<172>();
    eq_case::<173>();
    eq_case::<174>();
    eq_case::<175>();
    eq_case::<176>();
    eq_case::<177>();
    eq_case::<178>();
    eq_case::<179>();
    eq_case::<180>();
    eq_case::<181>();
    eq_case::<182>();
    eq_case::<183>();
    eq_case::<184>();
    eq_case::<185>();
    eq_case::<186>();
    eq_case::<187>();
    eq_case::<188>();
    eq_case::<189>();
    eq_case::<190>();
    eq_case::<191>();
    eq_case::<192>();
    eq_case::<193>();
    eq_case::<194>();
    eq_case::<195>();
    eq_case::<196>();
    eq_case::<197>();
    eq_case::<198>();
    eq_case::<199>();
    eq_case::<200>();
    eq_case::<201>();
    eq_case::<202>();
    eq_case::<203>();
    eq_case::<204>();
    eq_case::<205>();
    eq_case::<206>();
    eq_case::<207>();
    eq_case::<208>();
    eq_case::<209>();
    eq_case::<210>();
    eq_case::<211>();
    eq_case::<212>();
    eq_case::<213>();
    eq_case::<214>();
    eq_case::<215>();
    eq_case::<216>();
    eq_case::<217>();
    eq_case::<218>();
    eq_case::<219>();
    eq_case::<220>();
    eq_case::<221>();
    eq_case::<222>();
    eq_case::<223>();
    eq_case::<224>();
    eq_case::<225>();
    eq_case::<226>();
    eq_case::<227>();
    eq_case::<228>();
    eq_case::<229>();
    eq_case::<230>();
    eq_case::<231>();
    eq_case::<232>();
    eq_case::<233>();
    eq_case::<234>();
    eq_case::<235>();
    eq_case::<236>();
    eq_case::<237>();
    eq_case::<238>();
    eq_case::<239>();
    eq_case::<240>();
    eq_case::<241>();
    eq_case::<242>();
    eq_case::<243>();
    eq_case::<244>();
    eq_case::<245>();
    eq_case::<246>();
    eq_case::<247>();
    eq_case::<248>();
    eq_case::<249>();
    eq_case::<250>();
    eq_case::<251>();
    eq_case::<252>();
    eq_case::<253>();
    eq_case::<254>();
    eq_case::<255>();
}

fn neq_case<const N: usize>() {
    for _iters in 0..10 {
        let y: Bits<N> = random_bits();
        let z: Bits<N> = random_bits();
        assert_eq!(y != z, big(y) != big(z));
    }
}

#[test]
fn test_neq() {
    neq_case::<1>();
    neq_case::<2>();
    neq_case::<3>();
    neq_case::<4>();
    neq_case::<5>();
    neq_case::<6>();
    neq_case::<7>();
    neq_case::<8>();
    neq_case::<9>();
    neq_case::<10>();
    neq_case::<11>();
    neq_case::<12>();
    neq_case::<13>();
    neq_case::<14>();
    neq_case::<15>();
    neq_case::<16>();
    neq_case::<17>();
    neq_case::<18>();
    neq_case::<19>();
    neq_case::<20>();
    neq_case::<21>();
    neq_case::<22>();
    neq_case::<23>();
    neq_case::<24>();
    neq_case::<25>();
    neq_case::<26>();
    neq_case::<27>();
    neq_case::<28>();
    neq_case::<29>();
    neq_case::<30>();
    neq_case::<31>();
    neq_case::<32>();
    neq_case::<33>();
    neq_case::<34>();
    neq_case::<35>();
    neq_case::<36>();
    neq_case::<37>();
    neq_case::<38>();
    neq_case::<39>();
    neq_case::<40>();
    neq_case::<41>();
    neq_case::<42>();
    neq_case::<43>();
    neq_case::<44>();
    neq_case::<45>();
    neq_case::<46>();
    neq_case::<47>();
    neq_case::<48>();
    neq_case::<49>();
    neq_case::<50>();
    neq_case::<51>();
    neq_case::<52>();
    neq_case::<53>();
    neq_case::<54>();
    neq_case::<55>();
    neq_case::<56>();
    neq_case::<57>();
    neq_case::<58>();
    neq_case::<59>();
    neq_case::<60>();
    neq_case::<61>();
    neq_case::<62>();
    neq_case::<63>();
    neq_case::<64>();
    neq_case::<65>();
    neq_case::<66>();
    neq_case::<67>();
    neq_case::<68>();
    neq_case::<69>();
    neq_case::<70>();
    neq_case::<71>();
    neq_case::<72>();
    neq_case::<73>();
    neq_case::<74>();
    neq_case::<75>();
    neq_case::<76>();
    neq_case::<77>();
    neq_case::<78>();
    neq_case::<79>();
    neq_case::<80>();
    neq_case::<81>();
    neq_case::<82>();
    neq_case::<83>();
    neq_case::<84>();
    neq_case::<85>();
    neq_case::<86>();
    neq_case::<87>();
    neq_case::<88>();
    neq_case::<89>();
    neq_case::<90>();
    neq_case::<91>();
    neq_case::<92>();
    neq_case::<93>();
    neq_case::<94>();
    neq_case::<95>();
    neq_case::<96>();
    neq_case::<97>();
    neq_case::<98>();
    neq_case::<99>();
    neq_case::<100>();
    neq_case::<101>();
    neq_case::<102>();
    neq_case::<103>();
    neq_case::<104>();
    neq_case::<105>();
    neq_case::<106>();
    neq_case::<107>();
    neq_case::<108>();
    neq_case::<109>();
    neq_case::<110>();
    neq_case::<111>();
    neq_case::<112>();
    neq_case::<113>();
    neq_case::<114>();
    neq_case::<115>();
    neq_case::<116>();
    neq_case::<117>();
    neq_case::<118>();
    neq_case::<119>();
    neq_case::<120>();
    neq_case::<121>();
    neq_case::<122>();
    neq_case::<123>();
    neq_case::<124>();
    neq_case::<125>();
    neq_case::<126>();
    neq_case::<127>();
    neq_case::<128>();
    neq_case::<129>();
    neq_case::<130>();
    neq_case::<131>();
    neq_case::<132>();
    neq_case::<133>();
    neq_case::<134>();
    neq_case::<135>();
    neq_case::<136>();
    neq_case::<137>();
    neq_case::<138>();
    neq_case::<139>();
    neq_case::<140>();
    neq_case::<141>();
    neq_case::<142>();
    neq_case::<143>();
    neq_case::<144>();
    neq_case::<145>();
    neq_case::<146>();
    neq_case::<147>();
    neq_case::<148>();
    neq_case::<149>();
    neq_case::<150>();
    neq_case::<151>();
    neq_case::<152>();
    neq_case::<153>();
    neq_case::<154>();
    neq_case::<155>();
    neq_case::<156>();
    neq_case::<157>();
    neq_case::<158>();
    neq_case::<159>();
    neq_case::<160>();
    neq_case::<161>();
    neq_case::<162>();
    neq_case::<163>();
    neq_case::<164>();
    neq_case::<165>();
    neq_case::<166>();
    neq_case::<167>();
    neq_case::<168>();
    neq_case::<169>();
    neq_case::<170>();
    neq_case::<171>();
    neq_case::<172>();
    neq_case::<173>();
    neq_case::<174>();
    neq_case::<175>();
    neq_case::<176>();
    neq_case::<177>();
    neq_case::<178>();
    neq_case::<179>();
    neq_case::<180>();
    neq_case::<181>();
    neq_case::<182>();
    neq_case::<183>();
    neq_case::<184>();
    neq_case::<185>();
    neq_case::<186>();
    neq_case::<187>();
    neq_case::<188>();
    neq_case::<189>();
    neq_case::<190>();
    neq_case::<191>();
    neq_case::<192>();
    neq_case::<193>();
    neq_case::<194>();
    neq_case::<195>();
    neq_case::<196>();
    neq_case::<197>();
    neq_case::<198>();
    neq_case::<199>();
    neq_case::<200>();
    neq_case::<201>();
    neq_case::<202>();
    neq_case::<203>();
    neq_case::<204>();
    neq_case::<205>();
    neq_case::<206>();
    neq_case::<207>();
    neq_case::<208>();
    neq_case::<209>();
    neq_case::<210>();
    neq_case::<211>();
    neq_case::<212>();
    neq_case::<213>();
    neq_case::<214>();
    neq_case::<215>();
    neq_case::<216>();
    neq_case::<217>();
    neq_case::<218>();
    neq_case::<219>();
    neq_case::<220>();
    neq_case::<221>();
    neq_case::<222>();
    neq_case::<223>();
    neq_case::<224>();
    neq_case::<225>();
    neq_case::<226>();
    neq_case::<227>();
    neq_case::<228>();
    neq_case::<229>();
    neq_case::<230>();
    neq_case::<231>();
    neq_case::<232>();
    neq_case::<233>();
    neq_case::<234>();
    neq_case::<235>();
    neq_case::<236>();
    neq_case::<237>();
    neq_case::<238>();
    neq_case::<239>();
    neq_case::<240>();
    neq_case::<241>();
    neq_case::<242>();
    neq_case::<243>();
    neq_case::<244>();
    neq_case::<245>();
    neq_case::<246>();
    neq_case::<247>();
    neq_case::<248>();
    neq_case::<249>();
    neq_case::<250>();
    neq_case::<251>();
    neq_case::<252>();
    neq_case::<253>();
    neq_case::<254>();
    neq_case::<255>();
}

fn ge_case<const N: usize>() {
    for _iters in 0..10 {
        let y: Bits<N> = random_bits();
        let z: Bits<N> = random_bits();
        assert_eq!(y >= z, big(y) >= big(z));
    }
}

#[test]
fn test_ge() {
    ge_case::<1>();
    ge_case::<2>();
    ge_case::<3>();
    ge_case::<4>();
    ge_case::<5>();
    ge_case::<6>();
    ge_case::<7>();
    ge_case::<8>();
    ge_case::<9>();
    ge_case::<10>();
    ge_case::<11>();
    ge_case::<12>();
    ge_case::<13>();
    ge_case::<14>();
    ge_case::<15>();
    ge_case::<16>();
    ge_case::<17>();
    ge_case::<18>();
    ge_case::<19>();
    ge_case::<20>();
    ge_case::<21>();
    ge_case::<22>();
    ge_case::<23>();
    ge_case::<24>();
    ge_case::<25>();
    ge_case::<26>();
    ge_case::<27>();
    ge_case::<28>();
    ge_case::<29>();
    ge_case::<30>();
    ge_case::<31>();
    ge_case::<32>();
    ge_case::<33>();
    ge_case::<34>();
    ge_case::<35>();
    ge_case::<36>();
    ge_case::<37>();
    ge_case::<38>();
    ge_case::<39>();
    ge_case::<40>();
    ge_case::<41>();
    ge_case::<42>();
    ge_case::<43>();
    ge_case::<44>();
    ge_case::<45>();
    ge_case::<46>();
    ge_case::<47>();
    ge_case::<48>();
    ge_case::<49>();
    ge_case::<50>();
    ge_case::<51>();
    ge_case::<52>();
    ge_case::<53>();
    ge_case::<54>();
    ge_case::<55>();
    ge_case::<56>();
    ge_case::<57>();
    ge_case::<58>();
    ge_case::<59>();
    ge_case::<60>();
    ge_case::<61>();
    ge_case::<62>();
    ge_case::<63>();
    ge_case::<64>();
    ge_case::<65>();
    ge_case::<66>();
    ge_case::<67>();
    ge_case::<68>();
    ge_case::<69>();
    ge_case::<70>();
    ge_case::<71>();
    ge_case::<72>();
    ge_case::<73>();
    ge_case::<74>();
    ge_case::<75>();
    ge_case::<76>();
    ge_case::<77>();
    ge_case::<78>();
    ge_case::<79>();
    ge_case::<80>();
    ge_case::<81>();
    ge_case::<82>();
    ge_case::<83>();
    ge_case::<84>();
    ge_case::<85>();
    ge_case::<86>();
    ge_case::<87>();
    ge_case::<88>();
    ge_case::<89>();
    ge_case::<90>();
    ge_case::<91>();
    ge_case::<92>();
    ge_case::<93>();
    ge_case::<94>();
    ge_case::<95>();
    ge_case::<96>();
    ge_case::<97>();
    ge_case::<98>();
    ge_case::<99>();
    ge_case::<100>();
    ge_case::<101>();
    ge_case::<102>();
    ge_case::<103>();
    ge_case::<104>();
    ge_case::<105>();
    ge_case::<106>();
    ge_case::<107>();
    ge_case::<108>();
    ge_case::<109>();
    ge_case::<110>();
    ge_case::<111>();
    ge_case::<112>();
    ge_case::<113>();
    ge_case::<114>();
    ge_case::<115>();
    ge_case::<116>();
    ge_case::<117>();
    ge_case::<118>();
    ge_case::<119>();
    ge_case::<120>();
    ge_case::<121>();
    ge_case::<122>();
    ge_case::<123>();
    ge_case::<124>();
    ge_case::<125>();
    ge_case::<126>();
    ge_case::<127>();
    ge_case::<128>();
    ge_case::<129>();
    ge_case::<130>();
    ge_case::<131>();
    ge_case::<132>();
    ge_case::<133>();
    ge_case::<134>();
    ge_case::<135>();
    ge_case::<136>();
    ge_case::<137>();
    ge_case::<138>();
    ge_case::<139>();
    ge_case::<140>();
    ge_case::<141>();
    ge_case::<142>();
    ge_case::<143>();
    ge_case::<144>();
    ge_case::<145>();
    ge_case::<146>();
    ge_case::<147>();
    ge_case::<148>();
    ge_case::<149>();
    ge_case::<150>();
    ge_case::<151>();
    ge_case::<152>();
    ge_case::<153>();
    ge_case::<154>();
    ge_case::<155>();
    ge_case::<156>();
    ge_case::<157>();
    ge_case::<158>();
    ge_case::<159>();
    ge_case::<160>();
    ge_case::<161>();
    ge_case::<162>();
    ge_case::<163>();
    ge_case::<164>();
    ge_case::<165>();
    ge_case::<166>();
    ge_case::<167>();
    ge_case::<168>();
    ge_case::<169>();
    ge_case::<170>();
    ge_case::<171>();
    ge_case::<172>();
    ge_case::<173>();
    ge_case::<174>();
    ge_case::<175>();
    ge_case::<176>();
    ge_case::<177>();
    ge_case::<178>();
    ge_case::<179>();
    ge_case::<180>();
    ge_case::<181>();
    ge_case::<182>();
    ge_case::<183>();
    ge_case::<184>();
    ge_case::<185>();
    ge_case::<186>();
    ge_case::<187>();
    ge_case::<188>();
    ge_case::<189>();
    ge_case::<190>();
    ge_case::<191>();
    ge_case::<192>();
    ge_case::<193>();
    ge_case::<194>();
    ge_case::<195>();
    ge_case::<196>();
    ge_case::<197>();
    ge_case::<198>();
    ge_case::<199>();
    ge_case::<200>();
    ge_case::<201>();
    ge_case::<202>();
    ge_case::<203>();
    ge_case::<204>();
    ge_case::<205>();
    ge_case::<206>();
    ge_case::<207>();
    ge_case::<208>();
    ge_case::<209>();
    ge_case::<210>();
    ge_case::<211>();
    ge_case::<212>();
    ge_case::<213>();
    ge_case::<214>();
    ge_case::<215>();
    ge_case::<216>();
    ge_case::<217>();
    ge_case::<218>();
    ge_case::<219>();
    ge_case::<220>();
    ge_case::<221>();
    ge_case::<222>();
    ge_case::<223>();
    ge_case::<224>();
    ge_case::<225>();
    ge_case::<226>();
    ge_case::<227>();
    ge_case::<228>();
    ge_case::<229>();
    ge_case::<230>();
    ge_case::<231>();
    ge_case::<232>();
    ge_case::<233>();
    ge_case::<234>();
    ge_case::<235>();
    ge_case::<236>();
    ge_case::<237>();
    ge_case::<238>();
    ge_case::<239>();
    ge_case::<240>();
    ge_case::<241>();
    ge_case::<242>();
    ge_case::<243>();
    ge_case::<244>();
    ge_case::<245>();
    ge_case::<246>();
    ge_case::<247>();
    ge_case::<248>();
    ge_case::<249>();
    ge_case::<250>();
    ge_case::<251>();
    ge_case::<252>();
    ge_case::<253>();
    ge_case::<254>();
    ge_case::<255>();
}

fn gt_case<const N: usize>() {
    for _iters in 0..10 {
        let y: Bits<N> = random_bits();
        let z: Bits<N> = random_bits();
        assert_eq!(y > z, big(y) > big(z));
    }
}

#[test]
fn test_gt() {
    gt_case::<1>();
    gt_case::<2>();
    gt_case::<3>();
    gt_case::<4>();
    gt_case::<5>();
    gt_case::<6>();
    gt_case::<7>();
    gt_case::<8>();
    gt_case::<9>();
    gt_case::<10>();
    gt_case::<11>();
    gt_case::<12>();
    gt_case::<13>();
    gt_case::<14>();
    gt_case::<15>();
    gt_case::<16>();
    gt_case::<17>();
    gt_case::<18>();
    gt_case::<19>();
    gt_case::<20>();
    gt_case::<21>();
    gt_case::<22>();
    gt_case::<23>();
    gt_case::<24>();
    gt_case::<25>();
    gt_case::<26>();
    gt_case::<27>();
    gt_case::<28>();
    gt_case::<29>();
    gt_case::<30>();
    gt_case::<31>();
    gt_case::<32>();
    gt_case::<33>();
    gt_case::<34>();
    gt_case::<35>();
    gt_case::<36>();
    gt_case::<37>();
    gt_case::<38>();
    gt_case::<39>();
    gt_case::<40>();
    gt_case::<41>();
    gt_case::<42>();
    gt_case::<43>();
    gt_case::<44>();
    gt_case::<45>();
    gt_case::<46>();
    gt_case::<47>();
    gt_case::<48>();
    gt_case::<49>();
    gt_case::<50>();
    gt_case::<51>();
    gt_case::<52>();
    gt_case::<53>();
    gt_case::<54>();
    gt_case::<55>();
    gt_case::<56>();
    gt_case::<57>();
    gt_case::<58>();
    gt_case::<59>();
    gt_case::<60>();
    gt_case::<61>();
    gt_case::<62>();
    gt_case::<63>();
    gt_case::<64>();
    gt_case::<65>();
    gt_case::<66>();
    gt_case::<67>();
    gt_case::<68>();
    gt_case::<69>();
    gt_case::<70>();
    gt_case::<71>();
    gt_case::<72>();
    gt_case::<73>();
    gt_case::<74>();
    gt_case::<75>();
    gt_case::<76>();
    gt_case::<77>();
    gt_case::<78>();
    gt_case::<79>();
    gt_case::<80>();
    gt_case::<81>();
    gt_case::<82>();
    gt_case::<83>();
    gt_case::<84>();
    gt_case::<85>();
    gt_case::<86>();
    gt_case::<87>();
    gt_case::<88>();
    gt_case::<89>();
    gt_case::<90>();
    gt_case::<91>();
    gt_case::<92>();
    gt_case::<93>();
    gt_case::<94>();
    gt_case::<95>();
    gt_case::<96>();
    gt_case::<97>();
    gt_case::<98>();
    gt_case::<99>();
    gt_case::<100>();
    gt_case::<101>();
    gt_case::<102>();
    gt_case::<103>();
    gt_case::<104>();
    gt_case::<105>();
    gt_case::<106>();
    gt_case::<107>();
    gt_case::<108>();
    gt_case::<109>();
    gt_case::<110>();
    gt_case::<111>();
    gt_case::<112>();
    gt_case::<113>();
    gt_case::<114>();
    gt_case::<115>();
    gt_case::<116>();
    gt_case::<117>();
    gt_case::<118>();
    gt_case::<119>();
    gt_case::<120>();
    gt_case::<121>();
    gt_case::<122>();
    gt_case::<123>();
    gt_case::<124>();
    gt_case::<125>();
    gt_case::<126>();
    gt_case::<127>();
    gt_case::<128>();
    gt_case::<129>();
    gt_case::<130>();
    gt_case::<131>();
    gt_case::<132>();
    gt_case::<133>();
    gt_case::<134>();
    gt_case::<135>();
    gt_case::<136>();
    gt_case::<137>();
    gt_case::<138>();
    gt_case::<139>();
    gt_case::<140>();
    gt_case::<141>();
    gt_case::<142>();
    gt_case::<143>();
    gt_case::<144>();
    gt_case::<145>();
    gt_case::<146>();
    gt_case::<147>();
    gt_case::<148>();
    gt_case::<149>();
    gt_case::<150>();
    gt_case::<151>();
    gt_case::<152>();
    gt_case::<153>();
    gt_case::<154>();
    gt_case::<155>();
    gt_case::<156>();
    gt_case::<157>();
    gt_case::<158>();
    gt_case::<159>();
    gt_case::<160>();
    gt_case::<161>();
    gt_case::<162>();
    gt_case::<163>();
    gt_case::<164>();
    gt_case::<165>();
    gt_case::<166>();
    gt_case::<167>();
    gt_case::<168>();
    gt_case::<169>();
    gt_case::<170>();
    gt_case::<171>();
    gt_case::<172>();
    gt_case::<173>();
    gt_case::<174>();
    gt_case::<175>();
    gt_case::<176>();
    gt_case::<177>();
    gt_case::<178>();
    gt_case::<179>();
    gt_case::<180>();
    gt_case::<181>();
    gt_case::<182>();
    gt_case::<183>();
    gt_case::<184>();
    gt_case::<185>();
    gt_case::<186>();
    gt_case::<187>();
    gt_case::<188>();
    gt_case::<189>();
    gt_case::<190>();
    gt_case::<191>();
    gt_case::<192>();
    gt_case::<193>();
    gt_case::<194>();
    gt_case::<195>();
    gt_case::<196>();
    gt_case::<197>();
    gt_case::<198>();
    gt_case::<199>();
    gt_case::<200>();
    gt_case::<201>();
    gt_case::<202>();
    gt_case::<203>();
    gt_case::<204>();
    gt_case::<205>();
    gt_case::<206>();
    gt_case::<207>();
    gt_case::<208>();
    gt_case::<209>();
    gt_case::<210>();
    gt_case::<211>();
    gt_case::<212>();
    gt_case::<213>();
    gt_case::<214>();
    gt_case::<215>();
    gt_case::<216>();
    gt_case::<217>();
    gt_case::<218>();
    gt_case::<219>();
    gt_case::<220>();
    gt_case::<221>();
    gt_case::<222>();
    gt_case::<223>();
    gt_case::<224>();
    gt_case::<225>();
    gt_case::<226>();
    gt_case::<227>();
    gt_case::<228>();
    gt_case::<229>();
    gt_case::<230>();
    gt_case::<231>();
    gt_case::<232>();
    gt_case::<233>();
    gt_case::<234>();
    gt_case::<235>();
    gt_case::<236>();
    gt_case::<237>();
    gt_case::<238>();
    gt_case::<239>();
    gt_case::<240>();
    gt_case::<241>();
    gt_case::<242>();
    gt_case::<243>();
    gt_case::<244>();
    gt_case::<245>();
    gt_case::<246>();
    gt_case::<247>();
    gt_case::<248>();
    gt_case::<249>();
    gt_case::<250>();
    gt_case::<251>();
    gt_case::<252>();
    gt_case::<253>();
    gt_case::<254>();
    gt_case::<255>();
}

fn shl_case<const N: usize>() {
    for l in 0..N {
        let y: Bits<N> = random_bits();
        let z: Bits<N> = y << (l as u64);
        let expected = (big(y) << l) & mask(N);
        assert_eq!(big(z), expected);
    }
}

#[test]
fn test_shl() {
    shl_case::<1>();
    shl_case::<2>();
    shl_case::<3>();
    shl_case::<4>();
    shl_case::<5>();
    shl_case::<6>();
    shl_case::<7>();
    shl_case::<8>();
    shl_case::<9>();
    shl_case::<10>();
    shl_case::<11>();
    shl_case::<12>();
    shl_case::<13>();
    shl_case::<14>();
    shl_case::<15>();
    shl_case::<16>();
    shl_case::<17>();
    shl_case::<18>();
    shl_case::<19>();
    shl_case::<20>();
    shl_case::<21>();
    shl_case::<22>();
    shl_case::<23>();
    shl_case::<24>();
    shl_case::<25>();
    shl_case::<26>();
    shl_case::<27>();
    shl_case::<28>();
    shl_case::<29>();
    shl_case::<30>();
    shl_case::<31>();
    shl_case::<32>();
    shl_case::<33>();
    shl_case::<34>();
    shl_case::<35>();
    shl_case::<36>();
    shl_case::<37>();
    shl_case::<38>();
    shl_case::<39>();
    shl_case::<40>();
    shl_case::<41>();
    shl_case::<42>();
    shl_case::<43>();
    shl_case::<44>();
    shl_case::<45>();
    shl_case::<46>();
    shl_case::<47>();
    shl_case::<48>();
    shl_case::<49>();
    shl_case::<50>();
    shl_case::<51>();
    shl_case::<52>();
    shl_case::<53>();
    shl_case::<54>();
    shl_case::<55>();
    shl_case::<56>();
    shl_case::<57>();
    shl_case::<58>();
    shl_case::<59>();
    shl_case::<60>();
    shl_case::<61>();
    shl_case::<62>();
    shl_case::<63>();
    shl_case::<64>();
    shl_case::<65>();
    shl_case::<66>();
    shl_case::<67>();
    shl_case::<68>();
    shl_case::<69>();
    shl_case::<70>();
    shl_case::<71>();
    shl_case::<72>();
    shl_case::<73>();
    shl_case::<74>();
    shl_case::<75>();
    shl_case::<76>();
    shl_case::<77>();
    shl_case::<78>();
    shl_case::<79>();
    shl_case::<80>();
    shl_case::<81>();
    shl_case::<82>();
    shl_case::<83>();
    shl_case::<84>();
    shl_case::<85>();
    shl_case::<86>();
    shl_case::<87>();
    shl_case::<88>();
    shl_case::<89>();
    shl_case::<90>();
    shl_case::<91>();
    shl_case::<92>();
    shl_case::<93>();
    shl_case::<94>();
    shl_case::<95>();
    shl_case::<96>();
    shl_case::<97>();
    shl_case::<98>();
    shl_case::<99>();
    shl_case::<100>();
    shl_case::<101>();
    shl_case::<102>();
    shl_case::<103>();
    shl_case::<104>();
    shl_case::<105>();
    shl_case::<106>();
    shl_case::<107>();
    shl_case::<108>();
    shl_case::<109>();
    shl_case::<110>();
    shl_case::<111>();
    shl_case::<112>();
    shl_case::<113>();
    shl_case::<114>();
    shl_case::<115>();
    shl_case::<116>();
    shl_case::<117>();
    shl_case::<118>();
    shl_case::<119>();
    shl_case::<120>();
    shl_case::<121>();
    shl_case::<122>();
    shl_case::<123>();
    shl_case::<124>();
    shl_case::<125>();
    shl_case::<126>();
    shl_case::<127>();
    shl_case::<128>();
    shl_case::<129>();
    shl_case::<130>();
    shl_case::<131>();
    shl_case::<132>();
    shl_case::<133>();
    shl_case::<134>();
    shl_case::<135>();
    shl_case::<136>();
    shl_case::<137>();
    shl_case::<138>();
    shl_case::<139>();
    shl_case::<140>();
    shl_case::<141>();
    shl_case::<142>();
    shl_case::<143>();
    shl_case::<144>();
    shl_case::<145>();
    shl_case::<146>();
    shl_case::<147>();
    shl_case::<148>();
    shl_case::<149>();
}

fn shr_case<const N: usize>() {
    for l in 0..N {
        let y: Bits<N> = random_bits();
        let z: Bits<N> = y >> (l as u64);
        let expected = (big(y) >> l) & mask(N);
        assert_eq!(big(z), expected);
    }
}

#[test]
fn test_shr() {
    shr_case::<1>();
    shr_case::<2>();
    shr_case::<3>();
    shr_case::<4>();
    shr_case::<5>();
    shr_case::<6>();
    shr_case::<7>();
    shr_case::<8>();
    shr_case::<9>();
    shr_case::<10>();
    shr_case::<11>();
    shr_case::<12>();
    shr_case::<13>();
    shr_case::<14>();
    shr_case::<15>();
    shr_case::<16>();
    shr_case::<17>();
    shr_case::<18>();
    shr_case::<19>();
    shr_case::<20>();
    shr_case::<21>();
    shr_case::<22>();
    shr_case::<23>();
    shr_case::<24>();
    shr_case::<25>();
    shr_case::<26>();
    shr_case::<27>();
    shr_case::<28>();
    shr_case::<29>();
    shr_case::<30>();
    shr_case::<31>();
    shr_case::<32>();
    shr_case::<33>();
    shr_case::<34>();
    shr_case::<35>();
    shr_case::<36>();
    shr_case::<37>();
    shr_case::<38>();
    shr_case::<39>();
    shr_case::<40>();
    shr_case::<41>();
    shr_case::<42>();
    shr_case::<43>();
    shr_case::<44>();
    shr_case::<45>();
    shr_case::<46>();
    shr_case::<47>();
    shr_case::<48>();
    shr_case::<49>();
    shr_case::<50>();
    shr_case::<51>();
    shr_case::<52>();
    shr_case::<53>();
    shr_case::<54>();
    shr_case::<55>();
    shr_case::<56>();
    shr_case::<57>();
    shr_case::<58>();
    shr_case::<59>();
    shr_case::<60>();
    shr_case::<61>();
    shr_case::<62>();
    shr_case::<63>();
    shr_case::<64>();
    shr_case::<65>();
    shr_case::<66>();
    shr_case::<67>();
    shr_case::<68>();
    shr_case::<69>();
    shr_case::<70>();
    shr_case::<71>();
    shr_case::<72>();
    shr_case::<73>();
    shr_case::<74>();
    shr_case::<75>();
    shr_case::<76>();
    shr_case::<77>();
    shr_case::<78>();
    shr_case::<79>();
    shr_case::<80>();
    shr_case::<81>();
    shr_case::<82>();
    shr_case::<83>();
    shr_case::<84>();
    shr_case::<85>();
    shr_case::<86>();
    shr_case::<87>();
    shr_case::<88>();
    shr_case::<89>();
    shr_case::<90>();
    shr_case::<91>();
    shr_case::<92>();
    shr_case::<93>();
    shr_case::<94>();
    shr_case::<95>();
    shr_case::<96>();
    shr_case::<97>();
    shr_case::<98>();
    shr_case::<99>();
    shr_case::<100>();
    shr_case::<101>();
    shr_case::<102>();
    shr_case::<103>();
    shr_case::<104>();
    shr_case::<105>();
    shr_case::<106>();
    shr_case::<107>();
    shr_case::<108>();
    shr_case::<109>();
    shr_case::<110>();
    shr_case::<111>();
    shr_case::<112>();
    shr_case::<113>();
    shr_case::<114>();
    shr_case::<115>();
    shr_case::<116>();
    shr_case::<117>();
    shr_case::<118>();
    shr_case::<119>();
    shr_case::<120>();
    shr_case::<121>();
    shr_case::<122>();
    shr_case::<123>();
    shr_case::<124>();
    shr_case::<125>();
    shr_case::<126>();
    shr_case::<127>();
    shr_case::<128>();
    shr_case::<129>();
    shr_case::<130>();
    shr_case::<131>();
    shr_case::<132>();
    shr_case::<133>();
    shr_case::<134>();
    shr_case::<135>();
    shr_case::<136>();
    shr_case::<137>();
    shr_case::<138>();
    shr_case::<139>();
    shr_case::<140>();
    shr_case::<141>();
    shr_case::<142>();
    shr_case::<143>();
    shr_case::<144>();
    shr_case::<145>();
    shr_case::<146>();
    shr_case::<147>();
    shr_case::<148>();
    shr_case::<149>();
}

fn any_case<const N: usize>() {
    for _rep in 0..10 {
        let y: Bits<N> = random_bits();
        assert_eq!(y.any(), big(y).count_ones() != 0);
    }
    assert!(!Bits::<N>::default().any());
}

#[test]
fn test_any() {
    any_case::<1>();
    any_case::<2>();
    any_case::<3>();
    any_case::<4>();
    any_case::<5>();
    any_case::<6>();
    any_case::<7>();
    any_case::<8>();
    any_case::<9>();
    any_case::<10>();
    any_case::<11>();
    any_case::<12>();
    any_case::<13>();
    any_case::<14>();
    any_case::<15>();
    any_case::<16>();
    any_case::<17>();
    any_case::<18>();
    any_case::<19>();
    any_case::<20>();
    any_case::<21>();
    any_case::<22>();
    any_case::<23>();
    any_case::<24>();
    any_case::<25>();
    any_case::<26>();
    any_case::<27>();
    any_case::<28>();
    any_case::<29>();
    any_case::<30>();
    any_case::<31>();
    any_case::<32>();
    any_case::<33>();
    any_case::<34>();
    any_case::<35>();
    any_case::<36>();
    any_case::<37>();
    any_case::<38>();
    any_case::<39>();
    any_case::<40>();
    any_case::<41>();
    any_case::<42>();
    any_case::<43>();
    any_case::<44>();
    any_case::<45>();
    any_case::<46>();
    any_case::<47>();
    any_case::<48>();
    any_case::<49>();
    any_case::<50>();
    any_case::<51>();
    any_case::<52>();
    any_case::<53>();
    any_case::<54>();
    any_case::<55>();
    any_case::<56>();
    any_case::<57>();
    any_case::<58>();
    any_case::<59>();
    any_case::<60>();
    any_case::<61>();
    any_case::<62>();
    any_case::<63>();
    any_case::<64>();
    any_case::<65>();
    any_case::<66>();
    any_case::<67>();
    any_case::<68>();
    any_case::<69>();
    any_case::<70>();
    any_case::<71>();
    any_case::<72>();
    any_case::<73>();
    any_case::<74>();
    any_case::<75>();
    any_case::<76>();
    any_case::<77>();
    any_case::<78>();
    any_case::<79>();
    any_case::<80>();
    any_case::<81>();
    any_case::<82>();
    any_case::<83>();
    any_case::<84>();
    any_case::<85>();
    any_case::<86>();
    any_case::<87>();
    any_case::<88>();
    any_case::<89>();
    any_case::<90>();
    any_case::<91>();
    any_case::<92>();
    any_case::<93>();
    any_case::<94>();
    any_case::<95>();
    any_case::<96>();
    any_case::<97>();
    any_case::<98>();
    any_case::<99>();
    any_case::<100>();
    any_case::<101>();
    any_case::<102>();
    any_case::<103>();
    any_case::<104>();
    any_case::<105>();
    any_case::<106>();
    any_case::<107>();
    any_case::<108>();
    any_case::<109>();
    any_case::<110>();
    any_case::<111>();
    any_case::<112>();
    any_case::<113>();
    any_case::<114>();
    any_case::<115>();
    any_case::<116>();
    any_case::<117>();
    any_case::<118>();
    any_case::<119>();
    any_case::<120>();
    any_case::<121>();
    any_case::<122>();
    any_case::<123>();
    any_case::<124>();
    any_case::<125>();
    any_case::<126>();
    any_case::<127>();
    any_case::<128>();
    any_case::<129>();
    any_case::<130>();
    any_case::<131>();
    any_case::<132>();
    any_case::<133>();
    any_case::<134>();
    any_case::<135>();
    any_case::<136>();
    any_case::<137>();
    any_case::<138>();
    any_case::<139>();
    any_case::<140>();
    any_case::<141>();
    any_case::<142>();
    any_case::<143>();
    any_case::<144>();
    any_case::<145>();
    any_case::<146>();
    any_case::<147>();
    any_case::<148>();
    any_case::<149>();
}

fn all_case<const N: usize>() {
    for _rep in 0..10 {
        let y: Bits<N> = random_bits();
        assert_eq!(y.all(), big(y).count_ones() == N as u64);
    }
    assert!(Bits::<N>::mask().all());
}

#[test]
fn test_all() {
    all_case::<1>();
    all_case::<2>();
    all_case::<3>();
    all_case::<4>();
    all_case::<5>();
    all_case::<6>();
    all_case::<7>();
    all_case::<8>();
    all_case::<9>();
    all_case::<10>();
    all_case::<11>();
    all_case::<12>();
    all_case::<13>();
    all_case::<14>();
    all_case::<15>();
    all_case::<16>();
    all_case::<17>();
    all_case::<18>();
    all_case::<19>();
    all_case::<20>();
    all_case::<21>();
    all_case::<22>();
    all_case::<23>();
    all_case::<24>();
    all_case::<25>();
    all_case::<26>();
    all_case::<27>();
    all_case::<28>();
    all_case::<29>();
    all_case::<30>();
    all_case::<31>();
    all_case::<32>();
    all_case::<33>();
    all_case::<34>();
    all_case::<35>();
    all_case::<36>();
    all_case::<37>();
    all_case::<38>();
    all_case::<39>();
    all_case::<40>();
    all_case::<41>();
    all_case::<42>();
    all_case::<43>();
    all_case::<44>();
    all_case::<45>();
    all_case::<46>();
    all_case::<47>();
    all_case::<48>();
    all_case::<49>();
    all_case::<50>();
    all_case::<51>();
    all_case::<52>();
    all_case::<53>();
    all_case::<54>();
    all_case::<55>();
    all_case::<56>();
    all_case::<57>();
    all_case::<58>();
    all_case::<59>();
    all_case::<60>();
    all_case::<61>();
    all_case::<62>();
    all_case::<63>();
    all_case::<64>();
    all_case::<65>();
    all_case::<66>();
    all_case::<67>();
    all_case::<68>();
    all_case::<69>();
    all_case::<70>();
    all_case::<71>();
    all_case::<72>();
    all_case::<73>();
    all_case::<74>();
    all_case::<75>();
    all_case::<76>();
    all_case::<77>();
    all_case::<78>();
    all_case::<79>();
    all_case::<80>();
    all_case::<81>();
    all_case::<82>();
    all_case::<83>();
    all_case::<84>();
    all_case::<85>();
    all_case::<86>();
    all_case::<87>();
    all_case::<88>();
    all_case::<89>();
    all_case::<90>();
    all_case::<91>();
    all_case::<92>();
    all_case::<93>();
    all_case::<94>();
    all_case::<95>();
    all_case::<96>();
    all_case::<97>();
    all_case::<98>();
    all_case::<99>();
    all_case::<100>();
    all_case::<101>();
    all_case::<102>();
    all_case::<103>();
    all_case::<104>();
    all_case::<105>();
    all_case::<106>();
    all_case::<107>();
    all_case::<108>();
    all_case::<109>();
    all_case::<110>();
    all_case::<111>();
    all_case::<112>();
    all_case::<113>();
    all_case::<114>();
    all_case::<115>();
    all_case::<116>();
    all_case::<117>();
    all_case::<118>();
    all_case::<119>();
    all_case::<120>();
    all_case::<121>();
    all_case::<122>();
    all_case::<123>();
    all_case::<124>();
    all_case::<125>();
    all_case::<126>();
    all_case::<127>();
    all_case::<128>();
    all_case::<129>();
    all_case::<130>();
    all_case::<131>();
    all_case::<132>();
    all_case::<133>();
    all_case::<134>();
    all_case::<135>();
    all_case::<136>();
    all_case::<137>();
    all_case::<138>();
    all_case::<139>();
    all_case::<140>();
    all_case::<141>();
    all_case::<142>();
    all_case::<143>();
    all_case::<144>();
    all_case::<145>();
    all_case::<146>();
    all_case::<147>();
    all_case::<148>();
    all_case::<149>();
}

fn get_bits_case<const N: usize, const M: usize>() {
    for offset in 0_usize..N {
        let y: Bits<N> = random_bits();
        let z = y.get_bits::<M>(offset);
        let expected = (big(y) >> offset) & mask(M);
        assert_eq!(big(z), expected);
    }
}

#[test]
fn test_get_bits() {
    get_bits_case::<8, 0>();
    get_bits_case::<8, 1>();
    get_bits_case::<8, 2>();
    get_bits_case::<8, 3>();
    get_bits_case::<8, 4>();
    get_bits_case::<8, 5>();
    get_bits_case::<8, 6>();
    get_bits_case::<8, 7>();
    get_bits_case::<8, 8>();
    get_bits_case::<8, 9>();
    get_bits_case::<8, 10>();
    get_bits_case::<8, 11>();
    get_bits_case::<8, 12>();
    get_bits_case::<8, 13>();
    get_bits_case::<8, 14>();
    get_bits_case::<8, 15>();
    get_bits_case::<32, 0>();
    get_bits_case::<32, 1>();
    get_bits_case::<32, 2>();
    get_bits_case::<32, 3>();
    get_bits_case::<32, 4>();
    get_bits_case::<32, 5>();
    get_bits_case::<32, 6>();
    get_bits_case::<32, 7>();
    get_bits_case::<32, 8>();
    get_bits_case::<32, 9>();
    get_bits_case::<32, 10>();
    get_bits_case::<32, 11>();
    get_bits_case::<32, 12>();
    get_bits_case::<32, 13>();
    get_bits_case::<32, 14>();
    get_bits_case::<32, 15>();
    get_bits_case::<32, 16>();
    get_bits_case::<32, 17>();
    get_bits_case::<32, 18>();
    get_bits_case::<32, 19>();
    get_bits_case::<32, 20>();
    get_bits_case::<32, 21>();
    get_bits_case::<32, 22>();
    get_bits_case::<32, 23>();
    get_bits_case::<32, 24>();
    get_bits_case::<32, 25>();
    get_bits_case::<32, 26>();
    get_bits_case::<32, 27>();
    get_bits_case::<32, 28>();
    get_bits_case::<32, 29>();
    get_bits_case::<32, 30>();
    get_bits_case::<32, 31>();
    get_bits_case::<32, 32>();
    get_bits_case::<32, 33>();
    get_bits_case::<32, 34>();
    get_bits_case::<32, 35>();
    get_bits_case::<32, 36>();
    get_bits_case::<32, 37>();
    get_bits_case::<32, 38>();
    get_bits_case::<32, 39>();
    get_bits_case::<32, 40>();
    get_bits_case::<32, 41>();
    get_bits_case::<32, 42>();
    get_bits_case::<32, 43>();
    get_bits_case::<32, 44>();
    get_bits_case::<32, 45>();
    get_bits_case::<32, 46>();
    get_bits_case::<32, 47>();
    get_bits_case::<32, 48>();
    get_bits_case::<32, 49>();
    get_bits_case::<32, 50>();
    get_bits_case::<32, 51>();
    get_bits_case::<32, 52>();
    get_bits_case::<32, 53>();
    get_bits_case::<32, 54>();
    get_bits_case::<32, 55>();
    get_bits_case::<32, 56>();
    get_bits_case::<32, 57>();
    get_bits_case::<32, 58>();
    get_bits_case::<32, 59>();
    get_bits_case::<32, 60>();
    get_bits_case::<32, 61>();
    get_bits_case::<32, 62>();
    get_bits_case::<32, 63>();
    get_bits_case::<64, 0>();
    get_bits_case::<64, 1>();
    get_bits_case::<64, 2>();
    get_bits_case::<64, 3>();
    get_bits_case::<64, 4>();
    get_bits_case::<64, 5>();
    get_bits_case::<64, 6>();
    get_bits_case::<64, 7>();
    get_bits_case::<64, 8>();
    get_bits_case::<64, 9>();
    get_bits_case::<64, 10>();
    get_bits_case::<64, 11>();
    get_bits_case::<64, 12>();
    get_bits_case::<64, 13>();
    get_bits_case::<64, 14>();
    get_bits_case::<64, 15>();
    get_bits_case::<64, 16>();
    get_bits_case::<64, 17>();
    get_bits_case::<64, 18>();
    get_bits_case::<64, 19>();
    get_bits_case::<64, 20>();
    get_bits_case::<64, 21>();
    get_bits_case::<64, 22>();
    get_bits_case::<64, 23>();
    get_bits_case::<64, 24>();
    get_bits_case::<64, 25>();
    get_bits_case::<64, 26>();
    get_bits_case::<64, 27>();
    get_bits_case::<64, 28>();
    get_bits_case::<64, 29>();
    get_bits_case::<64, 30>();
    get_bits_case::<64, 31>();
    get_bits_case::<64, 32>();
    get_bits_case::<64, 33>();
    get_bits_case::<64, 34>();
    get_bits_case::<64, 35>();
    get_bits_case::<64, 36>();
    get_bits_case::<64, 37>();
    get_bits_case::<64, 38>();
    get_bits_case::<64, 39>();
    get_bits_case::<64, 40>();
    get_bits_case::<64, 41>();
    get_bits_case::<64, 42>();
    get_bits_case::<64, 43>();
    get_bits_case::<64, 44>();
    get_bits_case::<64, 45>();
    get_bits_case::<64, 46>();
    get_bits_case::<64, 47>();
    get_bits_case::<64, 48>();
    get_bits_case::<64, 49>();
    get_bits_case::<64, 50>();
    get_bits_case::<64, 51>();
    get_bits_case::<64, 52>();
    get_bits_case::<64, 53>();
    get_bits_case::<64, 54>();
    get_bits_case::<64, 55>();
    get_bits_case::<64, 56>();
    get_bits_case::<64, 57>();
    get_bits_case::<64, 58>();
    get_bits_case::<64, 59>();
    get_bits_case::<64, 60>();
    get_bits_case::<64, 61>();
    get_bits_case::<64, 62>();
    get_bits_case::<64, 63>();
    get_bits_case::<64, 64>();
    get_bits_case::<256, 0>();
    get_bits_case::<256, 1>();
    get_bits_case::<256, 2>();
    get_bits_case::<256, 3>();
    get_bits_case::<256, 4>();
    get_bits_case::<256, 5>();
    get_bits_case::<256, 6>();
    get_bits_case::<256, 7>();
    get_bits_case::<256, 8>();
    get_bits_case::<256, 9>();
    get_bits_case::<256, 10>();
    get_bits_case::<256, 11>();
    get_bits_case::<256, 12>();
    get_bits_case::<256, 13>();
    get_bits_case::<256, 14>();
    get_bits_case::<256, 15>();
    get_bits_case::<256, 16>();
    get_bits_case::<256, 17>();
    get_bits_case::<256, 18>();
    get_bits_case::<256, 19>();
    get_bits_case::<256, 20>();
    get_bits_case::<256, 21>();
    get_bits_case::<256, 22>();
    get_bits_case::<256, 23>();
    get_bits_case::<256, 24>();
    get_bits_case::<256, 25>();
    get_bits_case::<256, 26>();
    get_bits_case::<256, 27>();
    get_bits_case::<256, 28>();
    get_bits_case::<256, 29>();
    get_bits_case::<256, 30>();
    get_bits_case::<256, 31>();
    get_bits_case::<256, 32>();
    get_bits_case::<256, 33>();
    get_bits_case::<256, 34>();
    get_bits_case::<256, 35>();
    get_bits_case::<256, 36>();
    get_bits_case::<256, 37>();
    get_bits_case::<256, 38>();
    get_bits_case::<256, 39>();
    get_bits_case::<256, 40>();
    get_bits_case::<256, 41>();
    get_bits_case::<256, 42>();
    get_bits_case::<256, 43>();
    get_bits_case::<256, 44>();
    get_bits_case::<256, 45>();
    get_bits_case::<256, 46>();
    get_bits_case::<256, 47>();
    get_bits_case::<256, 48>();
    get_bits_case::<256, 49>();
    get_bits_case::<256, 50>();
    get_bits_case::<256, 51>();
    get_bits_case::<256, 52>();
    get_bits_case::<256, 53>();
    get_bits_case::<256, 54>();
    get_bits_case::<256, 55>();
    get_bits_case::<256, 56>();
    get_bits_case::<256, 57>();
    get_bits_case::<256, 58>();
    get_bits_case::<256, 59>();
    get_bits_case::<256, 60>();
    get_bits_case::<256, 61>();
    get_bits_case::<256, 62>();
    get_bits_case::<256, 63>();
    get_bits_case::<256, 64>();
    get_bits_case::<256, 65>();
    get_bits_case::<256, 66>();
    get_bits_case::<256, 67>();
    get_bits_case::<256, 68>();
    get_bits_case::<256, 69>();
    get_bits_case::<256, 70>();
    get_bits_case::<256, 71>();
    get_bits_case::<256, 72>();
    get_bits_case::<256, 73>();
    get_bits_case::<256, 74>();
    get_bits_case::<256, 75>();
    get_bits_case::<256, 76>();
    get_bits_case::<256, 77>();
    get_bits_case::<256, 78>();
    get_bits_case::<256, 79>();
    get_bits_case::<256, 80>();
    get_bits_case::<256, 81>();
    get_bits_case::<256, 82>();
    get_bits_case::<256, 83>();
    get_bits_case::<256, 84>();
    get_bits_case::<256, 85>();
    get_bits_case::<256, 86>();
    get_bits_case::<256, 87>();
    get_bits_case::<256, 88>();
    get_bits_case::<256, 89>();
    get_bits_case::<256, 90>();
    get_bits_case::<256, 91>();
    get_bits_case::<256, 92>();
    get_bits_case::<256, 93>();
    get_bits_case::<256, 94>();
    get_bits_case::<256, 95>();
    get_bits_case::<256, 96>();
    get_bits_case::<256, 97>();
    get_bits_case::<256, 98>();
    get_bits_case::<256, 99>();
    get_bits_case::<256, 100>();
    get_bits_case::<256, 101>();
    get_bits_case::<256, 102>();
    get_bits_case::<256, 103>();
    get_bits_case::<256, 104>();
    get_bits_case::<256, 105>();
    get_bits_case::<256, 106>();
    get_bits_case::<256, 107>();
    get_bits_case::<256, 108>();
    get_bits_case::<256, 109>();
    get_bits_case::<256, 110>();
    get_bits_case::<256, 111>();
    get_bits_case::<256, 112>();
    get_bits_case::<256, 113>();
    get_bits_case::<256, 114>();
    get_bits_case::<256, 115>();
    get_bits_case::<256, 116>();
    get_bits_case::<256, 117>();
    get_bits_case::<256, 118>();
    get_bits_case::<256, 119>();
    get_bits_case::<256, 120>();
    get_bits_case::<256, 121>();
    get_bits_case::<256, 122>();
    get_bits_case::<256, 123>();
    get_bits_case::<256, 124>();
    get_bits_case::<256, 125>();
    get_bits_case::<256, 126>();
    get_bits_case::<256, 127>();
    get_bits_case::<256, 128>();
    get_bits_case::<256, 129>();
    get_bits_case::<256, 130>();
    get_bits_case::<256, 131>();
    get_bits_case::<256, 132>();
    get_bits_case::<256, 133>();
    get_bits_case::<256, 134>();
    get_bits_case::<256, 135>();
    get_bits_case::<256, 136>();
    get_bits_case::<256, 137>();
    get_bits_case::<256, 138>();
    get_bits_case::<256, 139>();
    get_bits_case::<256, 140>();
    get_bits_case::<256, 141>();
    get_bits_case::<256, 142>();
    get_bits_case::<256, 143>();
    get_bits_case::<256, 144>();
    get_bits_case::<256, 145>();
    get_bits_case::<256, 146>();
    get_bits_case::<256, 147>();
    get_bits_case::<256, 148>();
    get_bits_case::<256, 149>();
    get_bits_case::<256, 150>();
    get_bits_case::<256, 151>();
    get_bits_case::<256, 152>();
    get_bits_case::<256, 153>();
    get_bits_case::<256, 154>();
    get_bits_case::<256, 155>();
    get_bits_case::<256, 156>();
    get_bits_case::<256, 157>();
    get_bits_case::<256, 158>();
    get_bits_case::<256, 159>();
    get_bits_case::<256, 160>();
    get_bits_case::<256, 161>();
    get_bits_case::<256, 162>();
    get_bits_case::<256, 163>();
    get_bits_case::<256, 164>();
    get_bits_case::<256, 165>();
    get_bits_case::<256, 166>();
    get_bits_case::<256, 167>();
    get_bits_case::<256, 168>();
    get_bits_case::<256, 169>();
    get_bits_case::<256, 170>();
    get_bits_case::<256, 171>();
    get_bits_case::<256, 172>();
    get_bits_case::<256, 173>();
    get_bits_case::<256, 174>();
    get_bits_case::<256, 175>();
    get_bits_case::<256, 176>();
    get_bits_case::<256, 177>();
    get_bits_case::<256, 178>();
    get_bits_case::<256, 179>();
    get_bits_case::<256, 180>();
    get_bits_case::<256, 181>();
    get_bits_case::<256, 182>();
    get_bits_case::<256, 183>();
    get_bits_case::<256, 184>();
    get_bits_case::<256, 185>();
    get_bits_case::<256, 186>();
    get_bits_case::<256, 187>();
    get_bits_case::<256, 188>();
    get_bits_case::<256, 189>();
    get_bits_case::<256, 190>();
    get_bits_case::<256, 191>();
    get_bits_case::<256, 192>();
    get_bits_case::<256, 193>();
    get_bits_case::<256, 194>();
    get_bits_case::<256, 195>();
    get_bits_case::<256, 196>();
    get_bits_case::<256, 197>();
    get_bits_case::<256, 198>();
    get_bits_case::<256, 199>();
    get_bits_case::<256, 200>();
    get_bits_case::<256, 201>();
    get_bits_case::<256, 202>();
    get_bits_case::<256, 203>();
    get_bits_case::<256, 204>();
    get_bits_case::<256, 205>();
    get_bits_case::<256, 206>();
    get_bits_case::<256, 207>();
    get_bits_case::<256, 208>();
    get_bits_case::<256, 209>();
    get_bits_case::<256, 210>();
    get_bits_case::<256, 211>();
    get_bits_case::<256, 212>();
    get_bits_case::<256, 213>();
    get_bits_case::<256, 214>();
    get_bits_case::<256, 215>();
    get_bits_case::<256, 216>();
    get_bits_case::<256, 217>();
    get_bits_case::<256, 218>();
    get_bits_case::<256, 219>();
    get_bits_case::<256, 220>();
    get_bits_case::<256, 221>();
    get_bits_case::<256, 222>();
    get_bits_case::<256, 223>();
    get_bits_case::<256, 224>();
    get_bits_case::<256, 225>();
    get_bits_case::<256, 226>();
    get_bits_case::<256, 227>();
    get_bits_case::<256, 228>();
    get_bits_case::<256, 229>();
    get_bits_case::<256, 230>();
    get_bits_case::<256, 231>();
    get_bits_case::<256, 232>();
    get_bits_case::<256, 233>();
    get_bits_case::<256, 234>();
    get_bits_case::<256, 235>();
    get_bits_case::<256, 236>();
    get_bits_case::<256, 237>();
    get_bits_case::<256, 238>();
    get_bits_case::<256, 239>();
    get_bits_case::<256, 240>();
    get_bits_case::<256, 241>();
    get_bits_case::<256, 242>();
    get_bits_case::<256, 243>();
    get_bits_case::<256, 244>();
    get_bits_case::<256, 245>();
    get_bits_case::<256, 246>();
    get_bits_case::<256, 247>();
    get_bits_case::<256, 248>();
    get_bits_case::<256, 249>();
    get_bits_case::<256, 250>();
    get_bits_case::<256, 251>();
    get_bits_case::<256, 252>();
    get_bits_case::<256, 253>();
    get_bits_case::<256, 254>();
    get_bits_case::<256, 255>();
    get_bits_case::<256, 256>();
    get_bits_case::<256, 257>();
    get_bits_case::<256, 258>();
    get_bits_case::<256, 259>();
    get_bits_case::<256, 260>();
    get_bits_case::<256, 261>();
    get_bits_case::<256, 262>();
    get_bits_case::<256, 263>();
    get_bits_case::<256, 264>();
    get_bits_case::<256, 265>();
    get_bits_case::<256, 266>();
    get_bits_case::<256, 267>();
    get_bits_case::<256, 268>();
    get_bits_case::<256, 269>();
    get_bits_case::<256, 270>();
    get_bits_case::<256, 271>();
    get_bits_case::<256, 272>();
    get_bits_case::<256, 273>();
    get_bits_case::<256, 274>();
    get_bits_case::<256, 275>();
    get_bits_case::<256, 276>();
    get_bits_case::<256, 277>();
    get_bits_case::<256, 278>();
    get_bits_case::<256, 279>();
    get_bits_case::<256, 280>();
    get_bits_case::<256, 281>();
    get_bits_case::<256, 282>();
    get_bits_case::<256, 283>();
    get_bits_case::<256, 284>();
    get_bits_case::<256, 285>();
    get_bits_case::<256, 286>();
    get_bits_case::<256, 287>();
    get_bits_case::<256, 288>();
    get_bits_case::<256, 289>();
    get_bits_case::<256, 290>();
    get_bits_case::<256, 291>();
    get_bits_case::<256, 292>();
    get_bits_case::<256, 293>();
    get_bits_case::<256, 294>();
    get_bits_case::<256, 295>();
    get_bits_case::<256, 296>();
    get_bits_case::<256, 297>();
    get_bits_case::<256, 298>();
    get_bits_case::<256, 299>();
    get_bits_case::<125, 0>();
    get_bits_case::<125, 1>();
    get_bits_case::<125, 2>();
    get_bits_case::<125, 3>();
    get_bits_case::<125, 4>();
    get_bits_case::<125, 5>();
    get_bits_case::<125, 6>();
    get_bits_case::<125, 7>();
    get_bits_case::<125, 8>();
    get_bits_case::<125, 9>();
    get_bits_case::<125, 10>();
    get_bits_case::<125, 11>();
    get_bits_case::<125, 12>();
    get_bits_case::<125, 13>();
    get_bits_case::<125, 14>();
    get_bits_case::<125, 15>();
    get_bits_case::<125, 16>();
    get_bits_case::<125, 17>();
    get_bits_case::<125, 18>();
    get_bits_case::<125, 19>();
    get_bits_case::<125, 20>();
    get_bits_case::<125, 21>();
    get_bits_case::<125, 22>();
    get_bits_case::<125, 23>();
    get_bits_case::<125, 24>();
    get_bits_case::<125, 25>();
    get_bits_case::<125, 26>();
    get_bits_case::<125, 27>();
    get_bits_case::<125, 28>();
    get_bits_case::<125, 29>();
    get_bits_case::<125, 30>();
    get_bits_case::<125, 31>();
    get_bits_case::<125, 32>();
    get_bits_case::<125, 33>();
    get_bits_case::<125, 34>();
    get_bits_case::<125, 35>();
    get_bits_case::<125, 36>();
    get_bits_case::<125, 37>();
    get_bits_case::<125, 38>();
    get_bits_case::<125, 39>();
    get_bits_case::<125, 40>();
    get_bits_case::<125, 41>();
    get_bits_case::<125, 42>();
    get_bits_case::<125, 43>();
    get_bits_case::<125, 44>();
    get_bits_case::<125, 45>();
    get_bits_case::<125, 46>();
    get_bits_case::<125, 47>();
    get_bits_case::<125, 48>();
    get_bits_case::<125, 49>();
    get_bits_case::<125, 50>();
    get_bits_case::<125, 51>();
    get_bits_case::<125, 52>();
    get_bits_case::<125, 53>();
    get_bits_case::<125, 54>();
    get_bits_case::<125, 55>();
    get_bits_case::<125, 56>();
    get_bits_case::<125, 57>();
    get_bits_case::<125, 58>();
    get_bits_case::<125, 59>();
    get_bits_case::<125, 60>();
    get_bits_case::<125, 61>();
    get_bits_case::<125, 62>();
    get_bits_case::<125, 63>();
    get_bits_case::<125, 64>();
    get_bits_case::<125, 65>();
    get_bits_case::<125, 66>();
    get_bits_case::<125, 67>();
    get_bits_case::<125, 68>();
    get_bits_case::<125, 69>();
    get_bits_case::<125, 70>();
    get_bits_case::<125, 71>();
    get_bits_case::<125, 72>();
    get_bits_case::<125, 73>();
    get_bits_case::<125, 74>();
    get_bits_case::<125, 75>();
    get_bits_case::<125, 76>();
    get_bits_case::<125, 77>();
    get_bits_case::<125, 78>();
    get_bits_case::<125, 79>();
    get_bits_case::<125, 80>();
    get_bits_case::<125, 81>();
    get_bits_case::<125, 82>();
    get_bits_case::<125, 83>();
    get_bits_case::<125, 84>();
    get_bits_case::<125, 85>();
    get_bits_case::<125, 86>();
    get_bits_case::<125, 87>();
    get_bits_case::<125, 88>();
    get_bits_case::<125, 89>();
    get_bits_case::<125, 90>();
    get_bits_case::<125, 91>();
    get_bits_case::<125, 92>();
    get_bits_case::<125, 93>();
    get_bits_case::<125, 94>();
    get_bits_case::<125, 95>();
    get_bits_case::<125, 96>();
    get_bits_case::<125, 97>();
    get_bits_case::<125, 98>();
    get_bits_case::<125, 99>();
    get_bits_case::<125, 100>();
    get_bits_case::<125, 101>();
    get_bits_case::<125, 102>();
    get_bits_case::<125, 103>();
    get_bits_case::<125, 104>();
    get_bits_case::<125, 105>();
    get_bits_case::<125, 106>();
    get_bits_case::<125, 107>();
    get_bits_case::<125, 108>();
    get_bits_case::<125, 109>();
    get_bits_case::<125, 110>();
    get_bits_case::<125, 111>();
    get_bits_case::<125, 112>();
    get_bits_case::<125, 113>();
    get_bits_case::<125, 114>();
    get_bits_case::<125, 115>();
    get_bits_case::<125, 116>();
    get_bits_case::<125, 117>();
    get_bits_case::<125, 118>();
    get_bits_case::<125, 119>();
    get_bits_case::<125, 120>();
    get_bits_case::<125, 121>();
    get_bits_case::<125, 122>();
    get_bits_case::<125, 123>();
    get_bits_case::<125, 124>();
    get_bits_case::<125, 125>();
    get_bits_case::<125, 126>();
    get_bits_case::<125, 127>();
    get_bits_case::<125, 128>();
    get_bits_case::<125, 129>();
    get_bits_case::<125, 130>();
    get_bits_case::<125, 131>();
    get_bits_case::<125, 132>();
    get_bits_case::<125, 133>();
    get_bits_case::<125, 134>();
    get_bits_case::<125, 135>();
    get_bits_case::<125, 136>();
    get_bits_case::<125, 137>();
    get_bits_case::<125, 138>();
    get_bits_case::<125, 139>();
    get_bits_case::<125, 140>();
    get_bits_case::<125, 141>();
    get_bits_case::<125, 142>();
    get_bits_case::<125, 143>();
    get_bits_case::<125, 144>();
    get_bits_case::<125, 145>();
    get_bits_case::<125, 146>();
    get_bits_case::<125, 147>();
    get_bits_case::<125, 148>();
    get_bits_case::<125, 149>();
}

fn bitcast_case<const N: usize, const M: usize>() {
    let y: Bits<N> = random_bits();
    let z = bit_cast::<M, N>(y);
    assert_eq!(big(z), big(y) & mask(M));
}

#[test]
fn test_bitcast() {
    bitcast_case::<1, 1>();
    bitcast_case::<8, 1>();
    bitcast_case::<16, 1>();
    bitcast_case::<32, 1>();
    bitcast_case::<64, 1>();
    bitcast_case::<128, 1>();
    bitcast_case::<256, 1>();
    bitcast_case::<1, 8>();
    bitcast_case::<8, 8>();
    bitcast_case::<16, 8>();
    bitcast_case::<32, 8>();
    bitcast_case::<64, 8>();
    bitcast_case::<128, 8>();
    bitcast_case::<256, 8>();
    bitcast_case::<1, 16>();
    bitcast_case::<8, 16>();
    bitcast_case::<16, 16>();
    bitcast_case::<32, 16>();
    bitcast_case::<64, 16>();
    bitcast_case::<128, 16>();
    bitcast_case::<256, 16>();
    bitcast_case::<1, 32>();
    bitcast_case::<8, 32>();
    bitcast_case::<16, 32>();
    bitcast_case::<32, 32>();
    bitcast_case::<64, 32>();
    bitcast_case::<128, 32>();
    bitcast_case::<256, 32>();
    bitcast_case::<1, 64>();
    bitcast_case::<8, 64>();
    bitcast_case::<16, 64>();
    bitcast_case::<32, 64>();
    bitcast_case::<64, 64>();
    bitcast_case::<128, 64>();
    bitcast_case::<256, 64>();
    bitcast_case::<1, 128>();
    bitcast_case::<8, 128>();
    bitcast_case::<16, 128>();
    bitcast_case::<32, 128>();
    bitcast_case::<64, 128>();
    bitcast_case::<128, 128>();
    bitcast_case::<256, 128>();
    bitcast_case::<1, 256>();
    bitcast_case::<8, 256>();
    bitcast_case::<16, 256>();
    bitcast_case::<32, 256>();
    bitcast_case::<64, 256>();
    bitcast_case::<128, 256>();
    bitcast_case::<256, 256>();
}
