pub mod cortex_m;
