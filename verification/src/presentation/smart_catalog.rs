//! Generic ATA attribute names in English and Simplified Chinese, derived
//! from the generic `[Smart]` language tables of CrystalDiskInfo 9.9.1
//! (MIT license; revision fdc8bce73ab0355c513c758ebf0f0f22662830e2).

use vstd::prelude::*;

use super::locale::Locale;

verus! {

/// The CrystalDiskInfo release the attribute names come from.
pub const CRYSTAL_DISK_INFO_VERSION: &'static str = "9.9.1";

/// The CrystalDiskInfo source revision the attribute names come from.
pub const CRYSTAL_DISK_INFO_REVISION: &'static str = "fdc8bce73ab0355c513c758ebf0f0f22662830e2";

/// The English and Simplified Chinese names of a generic ATA attribute.
pub open spec fn catalog_entry(id: u8) -> Option<(&'static str, &'static str)> {
    match id {
        0x01 => Some(("Read Error Rate", "读取错误率")),
        0x02 => Some(("Throughput Performance", "吞吐性能")),
        0x03 => Some(("Spin-Up Time", "起转用时")),
        0x04 => Some(("Start/Stop Count", "启停次数")),
        0x05 => Some(("Reallocated Sectors Count", "重新分配扇区数")),
        0x06 => Some(("Read Channel Margin", "读取通道余量")),
        0x07 => Some(("Seek Error Rate", "寻道错误率")),
        0x08 => Some(("Seek Time Performance", "寻道时间性能")),
        0x09 => Some(("Power-On Hours", "通电时间（小时）")),
        0x0A => Some(("Spin Retry Count", "起转重试次数")),
        0x0B => Some(("Recalibration Retries", "重新校准重试次数")),
        0x0C => Some(("Power Cycle Count", "通电次数")),
        0x0D => Some(("Soft Read Error Rate stab", "软读取错误率探针")),
        0x16 => Some(("Current Helium Level", "目前氦气水平")),
        0x17 => Some(("Helium Condition Lower", "氦气状态下限")),
        0x18 => Some(("Helium Condition Upper", "氦气状态上限")),
        0x1B => Some(("MAMR Health Monitor", "MAMR 健康监控")),
        0xB8 => Some(("End-to-End Error", "端到端错误")),
        0xBB => Some(("Reported Uncorrectable Errors", "报告的不可校正错误")),
        0xBC => Some(("Command Timeout", "命令超时")),
        0xBD => Some(("High Fly Writes", "磁头非正常高度写入")),
        0xBE => Some(("Airflow Temperature", "气流温度")),
        0xBF => Some(("G-Sense Error Rate", "加速度感应错误率")),
        0xC0 => Some(("Power-off Retract Count", "断电磁头缩回计数")),
        0xC1 => Some(("Load/Unload Cycle Count", "磁头加载/卸载循环计数")),
        0xC2 => Some(("Temperature", "温度")),
        0xC3 => Some(("Hardware ECC recovered", "硬件 ECC 校正计数")),
        0xC4 => Some(("Reallocation Event Count", "扇区物理位置重分配事件计数(与坏道相关)")),
        0xC5 => Some(("Current Pending Sector Count", "有待处置扇区数(状态存疑-需保持关注)")),
        0xC6 => Some(("Uncorrectable Sector Count", "不可校正的扇区数")),
        0xC7 => Some(("UltraDMA CRC Error Count", "UltraDMA CRC 错误计数(与数据线或接口相关)")),
        0xC8 => Some(("Write Error Rate", "写入错误率")),
        0xC9 => Some(("Soft Read Error Rate", "软读取错误率")),
        0xCA => Some(("Data Address Mark Error", "数据地址标记错误")),
        0xCB => Some(("Run Out Cancel", "校验和错误")),
        0xCC => Some(("Soft ECC Correction", "软 ECC 校正")),
        0xCD => Some(("Thermal Asperity Rate", "热骚动率(高温导致的出错)")),
        0xCE => Some(("Flying Height", "磁头飞行高度")),
        0xCF => Some(("Spin High Current", "起转最大电流")),
        0xD0 => Some(("Spin Buzz", "起转蜂鸣/起转阶梯(欠压启动时马达加速的流程数)")),
        0xD1 => Some(("Offline Seek Performance", "离线寻道性能")),
        0xD3 => Some(("Vibration During Write", "写入期间振动(振荡)")),
        0xD4 => Some(("Shock During Write", "写入期间震动(冲击)")),
        0xDC => Some(("Disk Shift", "盘片位移")),
        0xDD => Some(("G-Sense Error Rate", "加速度感应错误率")),
        0xDE => Some(("Loaded Hours", "加载所用小时数(磁头电机运转)")),
        0xDF => Some(("Load/Unload Retry Count", "加载/卸载重试计数")),
        0xE0 => Some(("Load Friction", "加载摩擦")),
        0xE1 => Some(("Load/Unload Cycle Count", "加载/卸载循环计数")),
        0xE2 => Some(("Load 'In'-time", "磁头待命时间总计(磁头从停泊区伸出)")),
        0xE3 => Some(("Torque Amplification Count", "扭矩放大计数")),
        0xE4 => Some(("Power-Off Retract Cycle", "断电磁头缩回计数")),
        0xE6 => Some(("GMR Head Amplitude", "巨磁阻磁头振幅")),
        0xE7 => Some(("Temperature", "温度")),
        0xF0 => Some(("Head Flying Hours", "磁头飞行小时数")),
        0xF1 => Some(("Total Host Writes", "主机总计写入")),
        0xF2 => Some(("Total Host Reads", "主机总计读取")),
        0xFA => Some(("Read Error Retry Rate", "读取错误重试率")),
        0xFE => Some(("Free Fall Protection", "自由落体保护")),
        _ => None,
    }
}

fn catalog_lookup(id: u8) -> (r: Option<(&'static str, &'static str)>)
    ensures
        r == catalog_entry(id),
{
    match id {
        0x01 => Some(("Read Error Rate", "读取错误率")),
        0x02 => Some(("Throughput Performance", "吞吐性能")),
        0x03 => Some(("Spin-Up Time", "起转用时")),
        0x04 => Some(("Start/Stop Count", "启停次数")),
        0x05 => Some(("Reallocated Sectors Count", "重新分配扇区数")),
        0x06 => Some(("Read Channel Margin", "读取通道余量")),
        0x07 => Some(("Seek Error Rate", "寻道错误率")),
        0x08 => Some(("Seek Time Performance", "寻道时间性能")),
        0x09 => Some(("Power-On Hours", "通电时间（小时）")),
        0x0A => Some(("Spin Retry Count", "起转重试次数")),
        0x0B => Some(("Recalibration Retries", "重新校准重试次数")),
        0x0C => Some(("Power Cycle Count", "通电次数")),
        0x0D => Some(("Soft Read Error Rate stab", "软读取错误率探针")),
        0x16 => Some(("Current Helium Level", "目前氦气水平")),
        0x17 => Some(("Helium Condition Lower", "氦气状态下限")),
        0x18 => Some(("Helium Condition Upper", "氦气状态上限")),
        0x1B => Some(("MAMR Health Monitor", "MAMR 健康监控")),
        0xB8 => Some(("End-to-End Error", "端到端错误")),
        0xBB => Some(("Reported Uncorrectable Errors", "报告的不可校正错误")),
        0xBC => Some(("Command Timeout", "命令超时")),
        0xBD => Some(("High Fly Writes", "磁头非正常高度写入")),
        0xBE => Some(("Airflow Temperature", "气流温度")),
        0xBF => Some(("G-Sense Error Rate", "加速度感应错误率")),
        0xC0 => Some(("Power-off Retract Count", "断电磁头缩回计数")),
        0xC1 => Some(("Load/Unload Cycle Count", "磁头加载/卸载循环计数")),
        0xC2 => Some(("Temperature", "温度")),
        0xC3 => Some(("Hardware ECC recovered", "硬件 ECC 校正计数")),
        0xC4 => Some(("Reallocation Event Count", "扇区物理位置重分配事件计数(与坏道相关)")),
        0xC5 => Some(("Current Pending Sector Count", "有待处置扇区数(状态存疑-需保持关注)")),
        0xC6 => Some(("Uncorrectable Sector Count", "不可校正的扇区数")),
        0xC7 => Some(("UltraDMA CRC Error Count", "UltraDMA CRC 错误计数(与数据线或接口相关)")),
        0xC8 => Some(("Write Error Rate", "写入错误率")),
        0xC9 => Some(("Soft Read Error Rate", "软读取错误率")),
        0xCA => Some(("Data Address Mark Error", "数据地址标记错误")),
        0xCB => Some(("Run Out Cancel", "校验和错误")),
        0xCC => Some(("Soft ECC Correction", "软 ECC 校正")),
        0xCD => Some(("Thermal Asperity Rate", "热骚动率(高温导致的出错)")),
        0xCE => Some(("Flying Height", "磁头飞行高度")),
        0xCF => Some(("Spin High Current", "起转最大电流")),
        0xD0 => Some(("Spin Buzz", "起转蜂鸣/起转阶梯(欠压启动时马达加速的流程数)")),
        0xD1 => Some(("Offline Seek Performance", "离线寻道性能")),
        0xD3 => Some(("Vibration During Write", "写入期间振动(振荡)")),
        0xD4 => Some(("Shock During Write", "写入期间震动(冲击)")),
        0xDC => Some(("Disk Shift", "盘片位移")),
        0xDD => Some(("G-Sense Error Rate", "加速度感应错误率")),
        0xDE => Some(("Loaded Hours", "加载所用小时数(磁头电机运转)")),
        0xDF => Some(("Load/Unload Retry Count", "加载/卸载重试计数")),
        0xE0 => Some(("Load Friction", "加载摩擦")),
        0xE1 => Some(("Load/Unload Cycle Count", "加载/卸载循环计数")),
        0xE2 => Some(("Load 'In'-time", "磁头待命时间总计(磁头从停泊区伸出)")),
        0xE3 => Some(("Torque Amplification Count", "扭矩放大计数")),
        0xE4 => Some(("Power-Off Retract Cycle", "断电磁头缩回计数")),
        0xE6 => Some(("GMR Head Amplitude", "巨磁阻磁头振幅")),
        0xE7 => Some(("Temperature", "温度")),
        0xF0 => Some(("Head Flying Hours", "磁头飞行小时数")),
        0xF1 => Some(("Total Host Writes", "主机总计写入")),
        0xF2 => Some(("Total Host Reads", "主机总计读取")),
        0xFA => Some(("Read Error Retry Rate", "读取错误重试率")),
        0xFE => Some(("Free Fall Protection", "自由落体保护")),
        _ => None,
    }
}

/// The name of an attribute in a locale, when the catalog knows it.
pub open spec fn attribute_name(id: u8, locale: Locale) -> Option<&'static str> {
    match catalog_entry(id) {
        Some((en, zh)) => Some(
            match locale {
                Locale::En => en,
                Locale::ZhCn => zh,
            },
        ),
        None => None,
    }
}

/// The generic name of ATA attribute `id` in `locale`.
pub fn ata_attribute_name(id: u8, locale: Locale) -> (r: Option<&'static str>)
    ensures
        r == attribute_name(id, locale),
{
    match catalog_lookup(id) {
        Some((en, zh)) => Some(
            match locale {
                Locale::En => en,
                Locale::ZhCn => zh,
            },
        ),
        None => None,
    }
}

} // verus!
