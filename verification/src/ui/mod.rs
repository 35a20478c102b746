pub mod icons;
